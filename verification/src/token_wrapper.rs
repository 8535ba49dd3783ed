//! The token registry: the tokens that remittances can be made in, with
//! their rates of exchange to a common unit.
use vstd::prelude::*;
use crate::error::Error;
use crate::host::CallContext;
use crate::identity::Address;
use crate::rates::{divide, quotient};
use crate::search::{
    distinct, is_first, is_last, last_position, lemma_last_position_absent,
    lemma_last_position_found, lemma_position_absent, lemma_position_found,
    lemma_position_is_first, position,
};

verus! {

/// What the registry knows of one token.
#[derive(Debug, PartialEq, Eq)]
pub struct TokenInfo {
    pub code: String,
    pub name: String,
    pub symbol: String,
    pub decimal: u32,
    pub issuer: Address,
    pub token_address: Address,
    pub is_stablecoin: bool,
    pub country_code: String,
    /// The value of one unit in the common unit, in basis points.
    pub exchange_rate: i128,
    pub created_at: u64,
}

/// Who may change the registry: the administrator registers tokens and names
/// the oracle, the oracle sets rates.
#[derive(Clone, Copy, Debug, PartialEq, Eq)]
pub struct Keepers {
    pub admin: Address,
    pub oracle: Address,
}

/// The model of the registry.
pub struct RegistryState {
    pub keepers: Option<Keepers>,
    pub tokens: Seq<TokenInfo>,
}

/// The codes of the tokens, in order of registration.
pub open spec fn token_codes(tokens: Seq<TokenInfo>) -> Seq<Seq<char>> {
    Seq::new(tokens.len(), |i: int| tokens[i].code@)
}

/// The symbols of the tokens, in order of registration.
pub open spec fn token_symbols(tokens: Seq<TokenInfo>) -> Seq<Seq<char>> {
    Seq::new(tokens.len(), |i: int| tokens[i].symbol@)
}

/// The country codes of the tokens, in order of registration.
pub open spec fn token_countries(tokens: Seq<TokenInfo>) -> Seq<Seq<char>> {
    Seq::new(tokens.len(), |i: int| tokens[i].country_code@)
}

/// The addresses of the tokens, in order of registration.
pub open spec fn token_addresses(tokens: Seq<TokenInfo>) -> Seq<Address> {
    Seq::new(tokens.len(), |i: int| tokens[i].token_address)
}

/// The stablecoins among the tokens, in order of registration.
pub open spec fn stablecoins(tokens: Seq<TokenInfo>) -> Seq<TokenInfo>
    decreases tokens.len(),
{
    if tokens.len() == 0 {
        Seq::empty()
    } else if tokens.last().is_stablecoin {
        stablecoins(tokens.drop_last()).push(tokens.last())
    } else {
        stablecoins(tokens.drop_last())
    }
}

/// `amount` of a token in the common unit: ten thousand times the amount over
/// the token's rate, which is not zero, rounded toward zero.
pub open spec fn in_common_unit(amount: i128, from_rate: i128) -> int {
    quotient(amount * 10000, from_rate as int)
}

/// `amount` of a token worth `from_rate`, first in the common unit and then
/// in a token worth `to_rate`, each step rounded toward zero.
pub open spec fn converted(amount: i128, from_rate: i128, to_rate: i128) -> int {
    quotient(in_common_unit(amount, from_rate) * to_rate, 10000)
}

/// How many millionths of a unit of the second token, whose rate is not
/// zero, one unit of the first is worth, rounded toward zero.
pub open spec fn cross_rate(source_rate: i128, dest_rate: i128) -> int {
    quotient(source_rate * 1_000_000, dest_rate as int)
}

/// Whether `x` is in the range of the machine's 128-bit integers.
pub open spec fn fits(x: int) -> bool {
    i128::MIN <= x <= i128::MAX
}

impl RegistryState {
    /// What holds of every registry that the engine reaches: no two tokens
    /// share a code.
    pub open spec fn wf(self) -> bool {
        distinct(token_codes(self.tokens))
    }

    /// The position of the token with the given code.
    pub open spec fn find(self, code: Seq<char>) -> Option<int> {
        position(token_codes(self.tokens), code)
    }

    /// The outcome of `initialize`: the first call, made by the
    /// administrator itself, names the administrator and the oracle.
    pub open spec fn initialize(self, ctx: CallContext, admin: Address, oracle: Address) -> (
        RegistryState,
        Result<(), Error>,
    ) {
        if self.keepers is Some {
            (self, Err(Error::AlreadyInitialized))
        } else if !ctx.authorizes(admin) {
            (self, Err(Error::NotAuthorized))
        } else {
            (RegistryState { keepers: Some(Keepers { admin, oracle }), ..self }, Ok(()))
        }
    }

    /// Why a call that is for the administrator is refused, if it is.
    pub open spec fn admin_refused(self, ctx: CallContext, admin: Address) -> Option<Error> {
        if !ctx.authorizes(admin) {
            Some(Error::NotAuthorized)
        } else {
            match self.keepers {
                None => Some(Error::InvalidState),
                Some(k) => if k.admin != admin {
                    Some(Error::Forbidden)
                } else {
                    None
                },
            }
        }
    }

    /// The outcome of `register_token`: the administrator adds a token whose
    /// code is new, with every field as given.
    pub open spec fn register_token(self, ctx: CallContext, admin: Address, token: TokenInfo) -> (
        RegistryState,
        Result<(), Error>,
    ) {
        match self.admin_refused(ctx, admin) {
            Some(e) => (self, Err(e)),
            None => if self.find(token.code@) is Some {
                (self, Err(Error::AlreadyExists))
            } else {
                (RegistryState { tokens: self.tokens.push(token), ..self }, Ok(()))
            },
        }
    }

    /// The outcome of `update_exchange_rate`: the oracle sets the rate of a
    /// registered token.
    pub open spec fn update_exchange_rate(
        self,
        ctx: CallContext,
        oracle: Address,
        code: Seq<char>,
        new_rate: i128,
    ) -> (RegistryState, Result<(), Error>) {
        if !ctx.authorizes(oracle) {
            (self, Err(Error::NotAuthorized))
        } else {
            match self.keepers {
                None => (self, Err(Error::InvalidState)),
                Some(k) => if k.oracle != oracle {
                    (self, Err(Error::Forbidden))
                } else {
                    match self.find(code) {
                        None => (self, Err(Error::NotFound)),
                        Some(i) => (
                            RegistryState {
                                tokens: self.tokens.update(
                                    i,
                                    TokenInfo { exchange_rate: new_rate, ..self.tokens[i] },
                                ),
                                ..self
                            },
                            Ok(()),
                        ),
                    }
                },
            }
        }
    }

    /// The outcome of `update_oracle`: the administrator names another
    /// oracle.
    pub open spec fn update_oracle(self, ctx: CallContext, admin: Address, new_oracle: Address) -> (
        RegistryState,
        Result<(), Error>,
    ) {
        match self.admin_refused(ctx, admin) {
            Some(e) => (self, Err(e)),
            None => (
                RegistryState { keepers: Some(Keepers { admin, oracle: new_oracle }), ..self },
                Ok(()),
            ),
        }
    }

    /// The outcome of `transfer_admin`: the administrator hands the registry
    /// to another party.
    pub open spec fn transfer_admin(self, ctx: CallContext, admin: Address, new_admin: Address) -> (
        RegistryState,
        Result<(), Error>,
    ) {
        match self.admin_refused(ctx, admin) {
            Some(e) => (self, Err(e)),
            None => (
                RegistryState {
                    keepers: Some(Keepers { admin: new_admin, oracle: self.keepers->0.oracle }),
                    ..self
                },
                Ok(()),
            ),
        }
    }

    /// What `get_token_by_code` returns.
    pub open spec fn get_token_by_code(self, code: Seq<char>) -> Result<TokenInfo, Error> {
        match self.find(code) {
            Some(i) => Ok(self.tokens[i]),
            None => Err(Error::NotFound),
        }
    }

    /// What `get_token_by_symbol` returns: the token registered last under
    /// the symbol.
    pub open spec fn get_token_by_symbol(self, symbol: Seq<char>) -> Result<TokenInfo, Error> {
        match last_position(token_symbols(self.tokens), symbol) {
            Some(i) => Ok(self.tokens[i]),
            None => Err(Error::NotFound),
        }
    }

    /// What `get_token_by_country` returns: the token registered last under
    /// the country code.
    pub open spec fn get_token_by_country(self, country_code: Seq<char>) -> Result<
        TokenInfo,
        Error,
    > {
        match last_position(token_countries(self.tokens), country_code) {
            Some(i) => Ok(self.tokens[i]),
            None => Err(Error::NotFound),
        }
    }

    /// What `get_token_by_address` returns: the code of the token registered
    /// last under the address.
    pub open spec fn get_token_by_address(self, token_address: Address) -> Result<Seq<char>, Error> {
        match last_position(token_addresses(self.tokens), token_address) {
            Some(i) => Ok(self.tokens[i].code@),
            None => Err(Error::NotFound),
        }
    }

    /// What `calculate_exchange_rate` returns: the amount converted from one
    /// registered token to another. A product or quotient on the way that
    /// does not fit is refused, and so is a rate of zero to divide by.
    pub open spec fn calculate_exchange_rate(
        self,
        from_token: Seq<char>,
        to_token: Seq<char>,
        amount: i128,
    ) -> Result<i128, Error> {
        match self.find(from_token) {
            None => Err(Error::NotFound),
            Some(i) => match self.find(to_token) {
                None => Err(Error::NotFound),
                Some(j) => {
                    let from_rate = self.tokens[i].exchange_rate;
                    let to_rate = self.tokens[j].exchange_rate;
                    if !fits(amount * 10000) {
                        Err(Error::InvalidArgument)
                    } else if from_rate == 0 {
                        Err(Error::InvalidState)
                    } else if !fits(in_common_unit(amount, from_rate)) || !fits(
                        in_common_unit(amount, from_rate) * to_rate,
                    ) {
                        Err(Error::InvalidArgument)
                    } else {
                        Ok(converted(amount, from_rate, to_rate) as i128)
                    }
                },
            },
        }
    }

    /// What `get_exchange_rate` returns: the rate between two registered
    /// tokens, in millionths. A product or quotient that does not fit is
    /// refused, and so is a rate of zero to divide by.
    pub open spec fn get_exchange_rate(self, source_code: Seq<char>, dest_code: Seq<char>) -> Result<
        i128,
        Error,
    > {
        match self.find(source_code) {
            None => Err(Error::NotFound),
            Some(i) => match self.find(dest_code) {
                None => Err(Error::NotFound),
                Some(j) => {
                    let source_rate = self.tokens[i].exchange_rate;
                    let dest_rate = self.tokens[j].exchange_rate;
                    if !fits(source_rate * 1_000_000) {
                        Err(Error::InvalidArgument)
                    } else if dest_rate == 0 {
                        Err(Error::InvalidState)
                    } else if !fits(cross_rate(source_rate, dest_rate)) {
                        Err(Error::InvalidArgument)
                    } else {
                        Ok(cross_rate(source_rate, dest_rate) as i128)
                    }
                },
            },
        }
    }
}

/// For the administrator, verified by the host, a token whose code is not
/// taken is registered with every field as given, whatever its rate, and a
/// token whose code is taken is refused and nothing changes. Either way no
/// two tokens share a code afterwards.
pub proof fn law_registration_depends_on_the_code_alone(
    s: RegistryState,
    ctx: CallContext,
    admin: Address,
    token: TokenInfo,
)
    requires
        s.wf(),
        ctx.authorizes(admin),
        s.keepers matches Some(k) && k.admin == admin,
    ensures
        s.find(token.code@) is None ==> s.register_token(ctx, admin, token) == (
            RegistryState { tokens: s.tokens.push(token), ..s },
            Ok::<(), Error>(()),
        ),
        s.find(token.code@) is Some ==> s.register_token(ctx, admin, token) == (
            s,
            Err::<(), Error>(Error::AlreadyExists),
        ),
        s.register_token(ctx, admin, token).0.wf(),
{
    if s.find(token.code@) is None {
        lemma_position_is_first(token_codes(s.tokens), token.code@);
        let after = s.tokens.push(token);
        assert(token_codes(after) =~= token_codes(s.tokens).push(token.code@));
        assert forall|a: int, b: int| 0 <= a < b < after.len() implies token_codes(after)[a]
            != token_codes(after)[b] by {
            if b == s.tokens.len() {
                assert(token_codes(s.tokens)[a] != token.code@);
            } else {
                assert(token_codes(s.tokens)[a] != token_codes(s.tokens)[b]);
            }
        }
    }
}

/// The registry of tokens.
pub struct TokenWrapperContract {
    keepers: Option<Keepers>,
    tokens: Vec<TokenInfo>,
}

impl View for TokenWrapperContract {
    type V = RegistryState;

    closed spec fn view(&self) -> RegistryState {
        RegistryState { keepers: self.keepers, tokens: self.tokens@ }
    }
}

/// A copy of a token's record.
fn copy_token(t: &TokenInfo) -> (r: TokenInfo)
    ensures
        r == *t,
{
    TokenInfo {
        code: t.code.clone(),
        name: t.name.clone(),
        symbol: t.symbol.clone(),
        decimal: t.decimal,
        issuer: t.issuer,
        token_address: t.token_address,
        is_stablecoin: t.is_stablecoin,
        country_code: t.country_code.clone(),
        exchange_rate: t.exchange_rate,
        created_at: t.created_at,
    }
}

impl TokenWrapperContract {
    /// Whether the registry is well formed. Every operation keeps it so.
    pub open spec fn wf(&self) -> bool {
        self@.wf()
    }

    /// A registry without tokens that has not been set up.
    pub fn new() -> (r: Self)
        ensures
            r.wf(),
            r@.keepers is None,
            r@.tokens.len() == 0,
    {
        TokenWrapperContract { keepers: None, tokens: Vec::new() }
    }

    /// The position of the token with the given code.
    fn find(&self, code: &String) -> (r: Option<usize>)
        ensures
            match r {
                Some(i) => self@.find(code@) == Some(i as int) && i < self.tokens@.len(),
                None => self@.find(code@) is None,
            },
    {
        let ghost keys = token_codes(self.tokens@);
        let mut i: usize = 0;
        while i < self.tokens.len()
            invariant
                i <= self.tokens@.len(),
                keys == token_codes(self.tokens@),
                forall|j: int| 0 <= j < i ==> keys[j] != code@,
            decreases self.tokens@.len() - i,
        {
            if self.tokens[i].code == *code {
                proof {
                    assert(is_first(keys, code@, i as int));
                    lemma_position_found(keys, code@, i as int);
                }
                return Some(i);
            }
            i += 1;
        }
        proof {
            lemma_position_absent(keys, code@);
        }
        None
    }

    /// Whether a call that is for the administrator is in order.
    fn check_admin(&self, ctx: &CallContext, admin: &Address) -> (r: Result<Keepers, Error>)
        ensures
            match r {
                Ok(k) => self@.admin_refused(*ctx, *admin) is None && self@.keepers == Some(k),
                Err(e) => self@.admin_refused(*ctx, *admin) == Some(e),
            },
    {
        if !ctx.require_auth(admin) {
            return Err(Error::NotAuthorized);
        }
        let keepers = match self.keepers {
            None => { return Err(Error::InvalidState); },
            Some(k) => k,
        };
        if !keepers.admin.same(admin) {
            return Err(Error::Forbidden);
        }
        Ok(keepers)
    }

    /// Names the administrator and the oracle. Only the first call succeeds.
    ///
    /// Fails with `AlreadyInitialized` on a registry that was set up, and
    /// with `NotAuthorized` unless the host has verified `admin`.
    pub fn initialize(&mut self, ctx: &CallContext, admin: Address, exchange_rate_oracle: Address) -> (r:
        Result<(), Error>)
        requires
            old(self).wf(),
        ensures
            final(self).wf(),
            (final(self)@, r) == old(self)@.initialize(*ctx, admin, exchange_rate_oracle),
    {
        if self.keepers.is_some() {
            return Err(Error::AlreadyInitialized);
        }
        if !ctx.require_auth(&admin) {
            return Err(Error::NotAuthorized);
        }
        self.keepers = Some(Keepers { admin, oracle: exchange_rate_oracle });
        Ok(())
    }

    /// Registers a token, stamped with the ledger time.
    ///
    /// Fails with `NotAuthorized` unless the host has verified `admin`, with
    /// `InvalidState` on a registry that was not set up, with `Forbidden` if
    /// `admin` is not the administrator, and with `AlreadyExists` if the code
    /// is taken. Otherwise the token is registered as given, whatever its
    /// rate.
    pub fn register_token(
        &mut self,
        ctx: &CallContext,
        admin: Address,
        code: String,
        name: String,
        symbol: String,
        decimal: u32,
        issuer: Address,
        token_address: Address,
        is_stablecoin: bool,
        country_code: String,
        exchange_rate: i128,
    ) -> (r: Result<(), Error>)
        requires
            old(self).wf(),
        ensures
            final(self).wf(),
            (final(self)@, r) == old(self)@.register_token(
                *ctx,
                admin,
                TokenInfo {
                    code,
                    name,
                    symbol,
                    decimal,
                    issuer,
                    token_address,
                    is_stablecoin,
                    country_code,
                    exchange_rate,
                    created_at: ctx.timestamp,
                },
            ),
    {
        match self.check_admin(ctx, &admin) {
            Err(e) => { return Err(e); },
            Ok(_) => {},
        }
        if self.find(&code).is_some() {
            return Err(Error::AlreadyExists);
        }
        proof {
            lemma_position_is_first(token_codes(self.tokens@), code@);
        }
        let token = TokenInfo {
            code,
            name,
            symbol,
            decimal,
            issuer,
            token_address,
            is_stablecoin,
            country_code,
            exchange_rate,
            created_at: ctx.timestamp,
        };
        self.tokens.push(token);
        proof {
            let before = old(self).tokens@;
            let after = self.tokens@;
            assert(token_codes(after) =~= token_codes(before).push(token.code@));
            assert forall|a: int, b: int| 0 <= a < b < after.len() implies token_codes(after)[a]
                != token_codes(after)[b] by {
                if b == before.len() {
                    assert(token_codes(before)[a] != token.code@);
                } else {
                    assert(token_codes(before)[a] != token_codes(before)[b]);
                }
            }
        }
        Ok(())
    }

    /// Sets the rate of a registered token.
    ///
    /// Fails with `NotAuthorized` unless the host has verified `oracle`, with
    /// `InvalidState` on a registry that was not set up, with `Forbidden` if
    /// `oracle` is not the oracle, and with `NotFound` for an unknown code.
    /// Otherwise the rate is set as given, whatever it is.
    pub fn update_exchange_rate(
        &mut self,
        ctx: &CallContext,
        oracle: Address,
        code: &String,
        new_exchange_rate: i128,
    ) -> (r: Result<(), Error>)
        requires
            old(self).wf(),
        ensures
            final(self).wf(),
            (final(self)@, r) == old(self)@.update_exchange_rate(
                *ctx,
                oracle,
                code@,
                new_exchange_rate,
            ),
    {
        if !ctx.require_auth(&oracle) {
            return Err(Error::NotAuthorized);
        }
        let keepers = match self.keepers {
            None => { return Err(Error::InvalidState); },
            Some(k) => k,
        };
        if !keepers.oracle.same(&oracle) {
            return Err(Error::Forbidden);
        }
        let i = match self.find(code) {
            None => { return Err(Error::NotFound); },
            Some(i) => i,
        };
        self.tokens[i].exchange_rate = new_exchange_rate;
        proof {
            let before = old(self).tokens@;
            let after = self.tokens@;
            assert(after =~= before.update(
                i as int,
                TokenInfo { exchange_rate: new_exchange_rate, ..before[i as int] },
            ));
            assert(token_codes(after) =~= token_codes(before));
        }
        Ok(())
    }

    /// Sets the rate of a registered token: another name of
    /// [`Self::update_exchange_rate`].
    pub fn update_token_exchange_rate(
        &mut self,
        ctx: &CallContext,
        oracle: Address,
        code: &String,
        new_exchange_rate: i128,
    ) -> (r: Result<(), Error>)
        requires
            old(self).wf(),
        ensures
            final(self).wf(),
            (final(self)@, r) == old(self)@.update_exchange_rate(
                *ctx,
                oracle,
                code@,
                new_exchange_rate,
            ),
    {
        self.update_exchange_rate(ctx, oracle, code, new_exchange_rate)
    }

    /// Names another oracle. Fails as a call for the administrator does:
    /// `NotAuthorized`, `InvalidState` or `Forbidden`.
    pub fn update_oracle(&mut self, ctx: &CallContext, admin: Address, new_oracle: Address) -> (r:
        Result<(), Error>)
        requires
            old(self).wf(),
        ensures
            final(self).wf(),
            (final(self)@, r) == old(self)@.update_oracle(*ctx, admin, new_oracle),
    {
        match self.check_admin(ctx, &admin) {
            Err(e) => Err(e),
            Ok(_) => {
                self.keepers = Some(Keepers { admin, oracle: new_oracle });
                Ok(())
            },
        }
    }

    /// Hands the registry to another administrator. Fails as a call for the
    /// administrator does: `NotAuthorized`, `InvalidState` or `Forbidden`.
    pub fn transfer_admin(&mut self, ctx: &CallContext, admin: Address, new_admin: Address) -> (r:
        Result<(), Error>)
        requires
            old(self).wf(),
        ensures
            final(self).wf(),
            (final(self)@, r) == old(self)@.transfer_admin(*ctx, admin, new_admin),
    {
        match self.check_admin(ctx, &admin) {
            Err(e) => Err(e),
            Ok(k) => {
                self.keepers = Some(Keepers { admin: new_admin, oracle: k.oracle });
                Ok(())
            },
        }
    }

    /// The token with the given code; `NotFound` if there is none.
    pub fn get_token_by_code(&self, code: &String) -> (r: Result<&TokenInfo, Error>)
        ensures
            match r {
                Ok(t) => self@.get_token_by_code(code@) == Ok::<TokenInfo, Error>(*t),
                Err(e) => self@.get_token_by_code(code@) == Err::<TokenInfo, Error>(e),
            },
    {
        match self.find(code) {
            Some(i) => Ok(&self.tokens[i]),
            None => Err(Error::NotFound),
        }
    }

    /// The token with the given code: another name of
    /// [`Self::get_token_by_code`].
    pub fn get_token_info(&self, code: &String) -> (r: Result<&TokenInfo, Error>)
        ensures
            match r {
                Ok(t) => self@.get_token_by_code(code@) == Ok::<TokenInfo, Error>(*t),
                Err(e) => self@.get_token_by_code(code@) == Err::<TokenInfo, Error>(e),
            },
    {
        self.get_token_by_code(code)
    }

    /// The token registered last under the symbol; `NotFound` if there is
    /// none.
    pub fn get_token_by_symbol(&self, symbol: &String) -> (r: Result<&TokenInfo, Error>)
        ensures
            match r {
                Ok(t) => self@.get_token_by_symbol(symbol@) == Ok::<TokenInfo, Error>(*t),
                Err(e) => self@.get_token_by_symbol(symbol@) == Err::<TokenInfo, Error>(e),
            },
    {
        let ghost keys = token_symbols(self.tokens@);
        let mut i: usize = self.tokens.len();
        while i > 0
            invariant
                i <= self.tokens@.len(),
                keys == token_symbols(self.tokens@),
                forall|j: int| i <= j < self.tokens@.len() ==> keys[j] != symbol@,
            decreases i,
        {
            i -= 1;
            if self.tokens[i].symbol == *symbol {
                proof {
                    assert(is_last(keys, symbol@, i as int));
                    lemma_last_position_found(keys, symbol@, i as int);
                }
                return Ok(&self.tokens[i]);
            }
        }
        proof {
            lemma_last_position_absent(keys, symbol@);
        }
        Err(Error::NotFound)
    }

    /// The token registered last under the country code; `NotFound` if there
    /// is none.
    pub fn get_token_by_country(&self, country_code: &String) -> (r: Result<&TokenInfo, Error>)
        ensures
            match r {
                Ok(t) => self@.get_token_by_country(country_code@) == Ok::<TokenInfo, Error>(*t),
                Err(e) => self@.get_token_by_country(country_code@) == Err::<TokenInfo, Error>(e),
            },
    {
        let ghost keys = token_countries(self.tokens@);
        let mut i: usize = self.tokens.len();
        while i > 0
            invariant
                i <= self.tokens@.len(),
                keys == token_countries(self.tokens@),
                forall|j: int| i <= j < self.tokens@.len() ==> keys[j] != country_code@,
            decreases i,
        {
            i -= 1;
            if self.tokens[i].country_code == *country_code {
                proof {
                    assert(is_last(keys, country_code@, i as int));
                    lemma_last_position_found(keys, country_code@, i as int);
                }
                return Ok(&self.tokens[i]);
            }
        }
        proof {
            lemma_last_position_absent(keys, country_code@);
        }
        Err(Error::NotFound)
    }

    /// The code of the token registered last under the address; `NotFound`
    /// if there is none.
    pub fn get_token_by_address(&self, token_address: &Address) -> (r: Result<String, Error>)
        ensures
            match r {
                Ok(code) => self@.get_token_by_address(*token_address) == Ok::<Seq<char>, Error>(
                    code@,
                ),
                Err(e) => self@.get_token_by_address(*token_address) == Err::<Seq<char>, Error>(e),
            },
    {
        let ghost keys = token_addresses(self.tokens@);
        let mut i: usize = self.tokens.len();
        while i > 0
            invariant
                i <= self.tokens@.len(),
                keys == token_addresses(self.tokens@),
                forall|j: int| i <= j < self.tokens@.len() ==> keys[j] != *token_address,
            decreases i,
        {
            i -= 1;
            if self.tokens[i].token_address.same(token_address) {
                proof {
                    assert(is_last(keys, *token_address, i as int));
                    lemma_last_position_found(keys, *token_address, i as int);
                }
                return Ok(self.tokens[i].code.clone());
            }
        }
        proof {
            lemma_last_position_absent(keys, *token_address);
        }
        Err(Error::NotFound)
    }

    /// Every token, in order of registration.
    pub fn get_all_tokens(&self) -> (r: Vec<TokenInfo>)
        ensures
            r@ == self@.tokens,
    {
        let mut all: Vec<TokenInfo> = Vec::new();
        let mut i: usize = 0;
        while i < self.tokens.len()
            invariant
                i <= self.tokens@.len(),
                all@ == self.tokens@.take(i as int),
            decreases self.tokens@.len() - i,
        {
            all.push(copy_token(&self.tokens[i]));
            i += 1;
            assert(all@ =~= self.tokens@.take(i as int));
        }
        assert(self.tokens@.take(i as int) =~= self.tokens@);
        all
    }

    /// The code of every token, in order of registration.
    pub fn get_token_list(&self) -> (r: Vec<String>)
        ensures
            r@.len() == self@.tokens.len(),
            forall|i: int| 0 <= i < r@.len() ==> r@[i]@ == self@.tokens[i].code@,
    {
        let mut codes: Vec<String> = Vec::new();
        let mut i: usize = 0;
        while i < self.tokens.len()
            invariant
                i <= self.tokens@.len(),
                codes@.len() == i,
                forall|j: int| 0 <= j < i ==> codes@[j]@ == self.tokens@[j].code@,
            decreases self.tokens@.len() - i,
        {
            codes.push(self.tokens[i].code.clone());
            i += 1;
        }
        codes
    }

    /// The stablecoins, in order of registration.
    pub fn get_stablecoins(&self) -> (r: Vec<TokenInfo>)
        ensures
            r@ == stablecoins(self@.tokens),
    {
        let mut found: Vec<TokenInfo> = Vec::new();
        let mut i: usize = 0;
        assert(self.tokens@.take(0).len() == 0);
        while i < self.tokens.len()
            invariant
                i <= self.tokens@.len(),
                found@ == stablecoins(self.tokens@.take(i as int)),
            decreases self.tokens@.len() - i,
        {
            let ghost next = self.tokens@.take(i + 1);
            assert(next.drop_last() =~= self.tokens@.take(i as int));
            assert(next.last() == self.tokens@[i as int]);
            if self.tokens[i].is_stablecoin {
                found.push(copy_token(&self.tokens[i]));
            }
            i += 1;
        }
        assert(self.tokens@.take(i as int) =~= self.tokens@);
        found
    }

    /// Converts an amount of one registered token into another, by way of
    /// the common unit, rounding toward zero at each step.
    ///
    /// Fails with `NotFound` for an unknown code, with `InvalidState` if the
    /// rate of the first token is zero, and with `InvalidArgument` if a
    /// product or quotient on the way does not fit in 128 bits.
    pub fn calculate_exchange_rate(&self, from_token: &String, to_token: &String, amount: i128) -> (r:
        Result<i128, Error>)
        ensures
            r == self@.calculate_exchange_rate(from_token@, to_token@, amount),
    {
        let i = match self.find(from_token) {
            None => { return Err(Error::NotFound); },
            Some(i) => i,
        };
        let j = match self.find(to_token) {
            None => { return Err(Error::NotFound); },
            Some(j) => j,
        };
        let from_rate = self.tokens[i].exchange_rate;
        let to_rate = self.tokens[j].exchange_rate;
        let scaled_up = match amount.checked_mul(10000) {
            None => { return Err(Error::InvalidArgument); },
            Some(v) => v,
        };
        if from_rate == 0 {
            return Err(Error::InvalidState);
        }
        let common = match divide(scaled_up, from_rate) {
            None => { return Err(Error::InvalidArgument); },
            Some(v) => v,
        };
        let product = match common.checked_mul(to_rate) {
            None => { return Err(Error::InvalidArgument); },
            Some(v) => v,
        };
        match divide(product, 10000) {
            None => Err(Error::InvalidArgument),
            Some(v) => Ok(v),
        }
    }

    /// The rate between two registered tokens, in millionths, rounded toward
    /// zero.
    ///
    /// Fails with `NotFound` for an unknown code, with `InvalidState` if the
    /// rate of the second token is zero, and with `InvalidArgument` if the
    /// product or the quotient does not fit in 128 bits.
    pub fn get_exchange_rate(&self, source_code: &String, dest_code: &String) -> (r: Result<
        i128,
        Error,
    >)
        ensures
            r == self@.get_exchange_rate(source_code@, dest_code@),
    {
        let i = match self.find(source_code) {
            None => { return Err(Error::NotFound); },
            Some(i) => i,
        };
        let j = match self.find(dest_code) {
            None => { return Err(Error::NotFound); },
            Some(j) => j,
        };
        let source_rate = self.tokens[i].exchange_rate;
        let dest_rate = self.tokens[j].exchange_rate;
        let product = match source_rate.checked_mul(1_000_000) {
            None => { return Err(Error::InvalidArgument); },
            Some(v) => v,
        };
        if dest_rate == 0 {
            return Err(Error::InvalidState);
        }
        match divide(product, dest_rate) {
            None => Err(Error::InvalidArgument),
            Some(v) => Ok(v),
        }
    }

    /// The administrator and the oracle, once the registry is set up.
    pub fn keepers(&self) -> (r: Option<Keepers>)
        ensures
            r == self@.keepers,
    {
        self.keepers
    }

    /// The stored tokens, in order of registration.
    pub fn tokens(&self) -> (r: &Vec<TokenInfo>)
        ensures
            r@ == self@.tokens,
    {
        &self.tokens
    }

    /// Makes a registry of stored parts, or `None` where the parts are not a
    /// well-formed registry.
    pub fn restore(keepers: Option<Keepers>, tokens: Vec<TokenInfo>) -> (r: Option<Self>)
        ensures
            match r {
                Some(registry) => registry.wf() && registry@ == (RegistryState {
                    keepers,
                    tokens: tokens@,
                }),
                None => !(RegistryState { keepers, tokens: tokens@ }).wf(),
            },
    {
        let ghost codes = token_codes(tokens@);
        let mut j: usize = 0;
        while j < tokens.len()
            invariant
                j <= tokens@.len(),
                codes == token_codes(tokens@),
                forall|a: int, b: int| 0 <= a < b < j ==> codes[a] != codes[b],
            decreases tokens@.len() - j,
        {
            let mut i: usize = 0;
            while i < j
                invariant
                    i <= j,
                    j < tokens@.len(),
                    codes == token_codes(tokens@),
                    forall|a: int| 0 <= a < i ==> codes[a] != codes[j as int],
                decreases j - i,
            {
                if tokens[i].code == tokens[j].code {
                    assert(codes[i as int] == codes[j as int]);
                    return None;
                }
                i += 1;
            }
            j += 1;
        }
        Some(TokenWrapperContract { keepers, tokens })
    }
}

} // verus!
