//! Who a request of the programming interface comes from: a user and its
//! group, known from the session or claimed by a token.

use vstd::prelude::*;
use crate::models::Uuid;
use crate::net::digit_byte;

verus! {

/// The last `count` hexadecimal digits of a number, lower case, the most
/// significant first.
pub open spec fn hex_digits(n: nat, count: nat) -> Seq<char>
    decreases count,
{
    if count == 0 {
        Seq::empty()
    } else {
        hex_digits(n / 16, (count - 1) as nat).push(digit_byte((n % 16) as int) as char)
    }
}

/// An identifier as text: its thirty-two hexadecimal digits, in groups of
/// eight, four, four, four and twelve with a hyphen between them.
pub open spec fn uuid_text(id: Uuid) -> Seq<char> {
    let h = hex_digits(id as nat, 32);
    h.subrange(0, 8) + seq!['-'] + h.subrange(8, 12) + seq!['-'] + h.subrange(12, 16) + seq!['-']
        + h.subrange(16, 20) + seq!['-'] + h.subrange(20, 32)
}

/// `uuid::Uuid::to_string` of the identifier with the number
/// (`uuid::Uuid::from_u128`): the hyphenated lower-case form.
#[verifier::external_body]
pub(crate) fn uuid_string(id: Uuid) -> (r: String)
    ensures
        r@ == uuid_text(id),
{
    uuid::Uuid::from_u128(id).to_string()
}

/// One who makes a request.
pub trait Identity {
    /// The user and its group, where they are known.
    spec fn known(&self) -> Option<(Uuid, Uuid)>;

    /// The name under which the requests are made, where there is one.
    spec fn named(&self) -> Option<Seq<char>>;

    /// The name under which the requests are made.
    fn identity(&self) -> (r: Option<&str>)
        ensures
            match r {
                Some(s) => self.named() == Some(s@),
                None => self.named().is_none(),
            },
    ;

    /// Forgets the user and the group.
    fn forget(&mut self)
        ensures
            final(self).known().is_none(),
            final(self).named() == old(self).named(),
    ;

    /// The user and its group.
    fn credentials(&self) -> (r: Option<(&Uuid, &Uuid)>)
        ensures
            match r {
                Some(c) => self.known() == Some((*c.0, *c.1)),
                None => self.known().is_none(),
            },
    ;

    /// The user.
    fn user_id(&self) -> (r: Option<&Uuid>)
        ensures
            match r {
                Some(u) => self.known().is_some() && self.known().unwrap().0 == *u,
                None => self.known().is_none(),
            },
    {
        match self.credentials() {
            Some(c) => Some(c.0),
            None => None,
        }
    }

    /// The group of the user.
    fn group_id(&self) -> (r: Option<&Uuid>)
        ensures
            match r {
                Some(g) => self.known().is_some() && self.known().unwrap().1 == *g,
                None => self.known().is_none(),
            },
    {
        match self.credentials() {
            Some(c) => Some(c.1),
            None => None,
        }
    }
}

/// The identity of a request of the programming interface. Its name is
/// the identifier of its user as text.
#[derive(Debug)]
pub struct ApiIdentity {
    pub identity: Option<(Uuid, Uuid)>,
    pub str_identity: Option<String>,
}

impl ApiIdentity {
    /// The identity of a user and its group, or of nobody.
    pub fn new(identity: Option<(Uuid, Uuid)>) -> (r: Self)
        ensures
            r.identity == identity,
            match identity {
                Some(c) => r.str_identity.is_some() && r.str_identity.unwrap()@ == uuid_text(c.0),
                None => r.str_identity.is_none(),
            },
    {
        let str_identity = match identity {
            Some(c) => Some(uuid_string(c.0)),
            None => None,
        };
        ApiIdentity { identity, str_identity }
    }
}

impl Identity for ApiIdentity {
    open spec fn known(&self) -> Option<(Uuid, Uuid)> {
        self.identity
    }

    open spec fn named(&self) -> Option<Seq<char>> {
        match self.str_identity {
            Some(s) => Some(s@),
            None => None,
        }
    }

    fn identity(&self) -> (r: Option<&str>) {
        match &self.str_identity {
            Some(s) => Some(s.as_str()),
            None => None,
        }
    }

    fn forget(&mut self) {
        self.identity = None;
    }

    fn credentials(&self) -> (r: Option<(&Uuid, &Uuid)>) {
        match &self.identity {
            Some(c) => Some((&c.0, &c.1)),
            None => None,
        }
    }
}

/// What a token claims: when it was issued, and for which user of which
/// group.
#[derive(Debug, Clone, Copy, PartialEq, Eq)]
pub struct Claims {
    pub iat: i64,
    pub user_id: Uuid,
    pub group_id: Uuid,
}

/// The service that finds the identity of each request, with the policy
/// that it goes by.
#[derive(Debug)]
pub struct IdentityService<T> {
    pub backend: T,
}

impl<T> IdentityService<T> {
    /// The service that goes by a policy.
    pub fn new(backend: T) -> (r: Self)
        ensures
            r.backend == backend,
    {
        IdentityService { backend }
    }
}

/// The least length of the key that tokens are signed with.
pub const KEY_LENGTH: usize = 32;

/// Where the identity of a request comes from.
#[derive(Debug)]
pub enum Claimed {
    /// The session knows the user and its group.
    Known(Uuid, Uuid),
    /// The request carries a token, which is to be checked against the
    /// key.
    Token(Vec<u8>),
    /// Neither.
    Nobody,
}

/// A byte with an ASCII capital made lower case.
pub open spec fn lower_byte(b: u8) -> u8 {
    if 65 <= b && b <= 90 {
        (b + 32) as u8
    } else {
        b
    }
}

/// Whether a header names a token: its first six bytes read `bearer`, in
/// either case, and it goes on after the byte that follows them.
pub open spec fn bears(h: Seq<u8>) -> bool {
    h.len() >= 7 && lower_byte(h[0]) == 98 && lower_byte(h[1]) == 101 && lower_byte(h[2]) == 97
        && lower_byte(h[3]) == 114 && lower_byte(h[4]) == 101 && lower_byte(h[5]) == 114
}

/// A byte with an ASCII capital made lower case.
fn to_lower(b: u8) -> (r: u8)
    ensures
        r == lower_byte(b),
{
    if 65 <= b && b <= 90 {
        b + 32
    } else {
        b
    }
}

/// The policy of the programming interface: the session counts first,
/// then a token in the `authorization` header.
#[derive(Debug)]
pub struct ApiIdentityPolicy {
    pub key: Vec<u8>,
}

impl ApiIdentityPolicy {
    /// The policy with the key that the tokens are signed with, of at
    /// least thirty-two bytes.
    pub fn new(key: &[u8]) -> (r: Self)
        requires
            key@.len() >= KEY_LENGTH,
        ensures
            r.key@ == key@,
    {
        ApiIdentityPolicy { key: crate::util::copy_bytes(key) }
    }

    /// The policy with the key, if the key is long enough.
    pub fn try_new(key: &[u8]) -> (r: Option<Self>)
        ensures
            match r {
                Some(p) => key@.len() >= KEY_LENGTH && p.key@ == key@,
                None => key@.len() < KEY_LENGTH,
            },
    {
        if key.len() >= KEY_LENGTH {
            Some(Self::new(key))
        } else {
            None
        }
    }

    /// Where the identity of a request comes from: the session where it
    /// knows the user; else the token that the `authorization` header
    /// names, which is what follows its first seven bytes; else nobody.
    pub fn load(&self, session: Option<(Uuid, Uuid)>, authorization: Option<&[u8]>) -> (r: Claimed)
        ensures
            match session {
                Some(c) => r == Claimed::Known(c.0, c.1),
                None => match authorization {
                    Some(h) if bears(h@) => r matches Claimed::Token(t) && t@ == h@.skip(7),
                    _ => r == Claimed::Nobody,
                },
            },
    {
        match session {
            Some(c) => Claimed::Known(c.0, c.1),
            None => match authorization {
                Some(h) => {
                    if is_bearer(h) {
                        let token = crate::util::bytes::slice_copy(h, 7, h.len());
                        proof {
                            assert(h@.skip(7) =~= h@.subrange(7, h@.len() as int));
                        }
                        Claimed::Token(token)
                    } else {
                        Claimed::Nobody
                    }
                },
                None => Claimed::Nobody,
            },
        }
    }

    /// The identity that a checked token claims.
    pub fn claimed(claims: &Claims) -> (r: ApiIdentity)
        ensures
            r.identity == Some((claims.user_id, claims.group_id)),
            r.str_identity.is_some() && r.str_identity.unwrap()@ == uuid_text(claims.user_id),
    {
        ApiIdentity::new(Some((claims.user_id, claims.group_id)))
    }
}

/// Whether a header names a token: see [`bears`].
fn is_bearer(h: &[u8]) -> (r: bool)
    ensures
        r == bears(h@),
{
    h.len() >= 7 && to_lower(h[0]) == 98 && to_lower(h[1]) == 101 && to_lower(h[2]) == 97
        && to_lower(h[3]) == 114 && to_lower(h[4]) == 101 && to_lower(h[5]) == 114
}

} // verus!
