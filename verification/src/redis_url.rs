//! The address of the Redis server.

use crate::text::has_prefix;
use std::str::FromStr;
use vstd::prelude::*;
use vstd::string::*;

verus! {

/// Whether `text` names a Redis server, in the clear or over TLS.
pub open spec fn has_redis_scheme(text: Seq<char>) -> bool {
    "redis://"@.is_prefix_of(text) || "rediss://"@.is_prefix_of(text)
}

/// The complaint about an address with another scheme.
pub open spec fn wrong_scheme() -> Seq<char> {
    "Redis URL must begin with redis:// or rediss://"@
}

/// The address of a Redis server: it begins with `redis://` or `rediss://`.
#[derive(Debug)]
pub struct RedisUrl(String);

impl View for RedisUrl {
    type V = Seq<char>;

    closed spec fn view(&self) -> Seq<char> {
        self.0@
    }
}

impl RedisUrl {
    #[verifier::type_invariant]
    spec fn well_formed(self) -> bool {
        has_redis_scheme(self.0@)
    }

    /// Takes `value` as it is where it has the scheme of Redis.
    pub fn new(value: &str) -> (url: Result<RedisUrl, String>)
        ensures
            url is Ok <==> has_redis_scheme(value@),
            url matches Ok(u) ==> u@ == value@,
            url matches Err(e) ==> e@ == wrong_scheme(),
    {
        if has_prefix(value, "redis://") || has_prefix(value, "rediss://") {
            Ok(RedisUrl(value.to_owned()))
        } else {
            Err("Redis URL must begin with redis:// or rediss://".to_owned())
        }
    }

    /// The address as it was given.
    pub fn as_str(&self) -> (text: &str)
        ensures
            text@ == self@,
            has_redis_scheme(self@),
    {
        proof {
            use_type_invariant(self);
        }
        self.0.as_str()
    }
}

impl Clone for RedisUrl {
    fn clone(&self) -> (copy: Self)
        ensures
            copy@ == self@,
    {
        proof {
            use_type_invariant(self);
        }
        RedisUrl(self.0.clone())
    }
}

impl FromStr for RedisUrl {
    type Err = String;

    /// Takes `value` as it is where it has the scheme of Redis.
    fn from_str(value: &str) -> (url: Result<Self, String>)
        ensures
            url is Ok <==> has_redis_scheme(value@),
            url matches Ok(u) ==> u@ == value@,
            url matches Err(e) ==> e@ == wrong_scheme(),
    {
        RedisUrl::new(value)
    }
}

/// An address is accepted exactly where it is `redis://` or `rediss://` and something more, and it
/// is then kept as it was given.
pub proof fn law_addresses_begin_with_a_redis_scheme(value: &str, url: Result<RedisUrl, String>)
    requires
        call_ensures(RedisUrl::new, (value,), url),
    ensures
        url is Ok <==> exists|rest: Seq<char>|
            value@ == #[trigger] ("redis://"@ + rest) || value@ == "rediss://"@ + rest,
        url matches Ok(u) ==> u@ == value@,
        url matches Err(e) ==> e@ == "Redis URL must begin with redis:// or rediss://"@,
{
    let plain = "redis://"@;
    let secure = "rediss://"@;
    if url is Ok {
        if plain.is_prefix_of(value@) {
            assert(value@ == plain + value@.skip(plain.len() as int));
        } else {
            let rest = value@.skip(secure.len() as int);
            assert(value@ == secure + rest);
            assert((plain + rest).len() >= plain.len());
        }
    }
    if exists|rest: Seq<char>| value@ == #[trigger] (plain + rest) || value@ == secure + rest {
        let rest = choose|rest: Seq<char>|
            value@ == #[trigger] (plain + rest) || value@ == secure + rest;
        if value@ == plain + rest {
            assert(value@.subrange(0, plain.len() as int) == plain);
        } else {
            assert(value@.subrange(0, secure.len() as int) == secure);
        }
    }
}

/// An address is handed on as it was given, by its copies too.
pub proof fn law_addresses_stay_as_they_are(
    value: &str,
    url: RedisUrl,
    copy: RedisUrl,
    text: &str,
)
    requires
        call_ensures(RedisUrl::new, (value,), Ok::<RedisUrl, String>(url)),
        call_ensures(RedisUrl::clone, (&url,), copy),
        call_ensures(RedisUrl::as_str, (&copy,), text),
    ensures
        text@ == value@,
{
}

} // verus!
