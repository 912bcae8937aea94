//! Filling in a new profile from the answers that were given for it.

use vstd::prelude::*;

use crate::cipher::{gen_key, KEY_LEN};
use crate::config::Profile;
use crate::encoding::{hex_bytes, hex_string, is_hex};

verus! {

/// The region that a profile gets where none is given.
pub open spec fn default_region() -> Seq<char> {
    "us-east-1"@
}

/// The answer, or `fallback` where the answer is empty.
pub fn answer_or(answer: String, fallback: &str) -> (r: String)
    ensures
        r@ == if answer@.len() == 0 {
            fallback@
        } else {
            answer@
        },
{
    if answer.as_str().is_empty() {
        fallback.to_owned()
    } else {
        answer
    }
}

/// A yes-or-no answer: `fallback` where it is empty, else what `true` or
/// `false` says, and `None` for anything else.
pub fn flag_or(answer: &str, fallback: bool) -> (r: Option<bool>)
    ensures
        r == if answer@.len() == 0 {
            Some(fallback)
        } else if answer@ == "true"@ {
            Some(true)
        } else if answer@ == "false"@ {
            Some(false)
        } else {
            None
        },
{
    let given = answer.to_owned();
    if answer.is_empty() {
        Some(fallback)
    } else if given == "true".to_owned() {
        Some(true)
    } else if given == "false".to_owned() {
        Some(false)
    } else {
        None
    }
}

/// Fills `profile` from the answers. An empty region stands for the default
/// region. With `encryption` a fresh random key is generated for the
/// profile; without it the key is left as it was.
pub fn populate_profile(
    profile: &mut Profile,
    access_key: String,
    secret_key: String,
    region: String,
    bucket: String,
    prefix: String,
    encryption: bool,
)
    ensures
        final(profile).access_key@ == access_key@,
        final(profile).secret_key@ == secret_key@,
        final(profile).region@ == if region@.len() == 0 {
            default_region()
        } else {
            region@
        },
        final(profile).bucket@ == bucket@,
        final(profile).prefix@ == prefix@,
        encryption ==> is_hex(final(profile).encryption_key@) && hex_bytes(
            final(profile).encryption_key@,
        ).len() == KEY_LEN && final(profile).encryption_key@ == hex_string(
            hex_bytes(final(profile).encryption_key@),
        ),
        !encryption ==> final(profile).encryption_key == old(profile).encryption_key,
{
    profile.access_key = access_key;
    profile.secret_key = secret_key;
    profile.region = answer_or(region, "us-east-1");
    profile.bucket = bucket;
    profile.prefix = prefix;
    if encryption {
        profile.encryption_key = gen_key();
    }
}

} // verus!
