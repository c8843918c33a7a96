use vstd::prelude::*;

use crate::config::StoredConfig;
use crate::text::{append_chars, chars_of, slice_of, string_of};

verus! {

/// Shown in place of a token too short to show any of it.
pub const HIDDEN: &'static str = "****";

/// Message of the refusal of an empty token.
pub const EMPTY_TOKEN: &'static str = "Token must not be empty.";

/// A token as it may be shown: its first and last four characters around
/// `...`, or `****` where it has eight characters or fewer.
pub open spec fn masked(token: Seq<char>) -> Seq<char> {
    if token.len() <= 8 {
        HIDDEN@
    } else {
        token.take(4) + seq!['.', '.', '.'] + token.skip(token.len() - 4)
    }
}

/// Masks a token for display.
pub fn mask_token(token: &str) -> (r: String)
    ensures
        r@ == masked(token@),
{
    let c = chars_of(token);
    if c.len() <= 8 {
        return crate::text::owned(HIDDEN);
    }
    let mut out = slice_of(&c, 0, 4);
    out.push('.');
    out.push('.');
    out.push('.');
    let tail = slice_of(&c, c.len() - 4, c.len());
    append_chars(&mut out, &tail);
    assert(out@ =~= masked(token@));
    string_of(&out)
}

/// Merges a URL and a token into the stored credentials. A URL given
/// replaces the stored one; a token given replaces the stored one, except an
/// empty token, which is refused (the URL is still taken).
pub fn apply_credentials(stored: &mut StoredConfig, url: Option<String>, token: Option<String>) -> (r: Result<
    (),
    &'static str,
>)
    ensures
        final(stored).url == (match url {
            Some(u) => Some(u),
            None => old(stored).url,
        }),
        (token matches Some(t) && t@.len() == 0) ==> (r matches Err(m) && m@ == EMPTY_TOKEN@
            && final(stored).token == old(stored).token),
        !(token matches Some(t) && t@.len() == 0) ==> (r is Ok && final(stored).token == (match token {
            Some(t) => Some(t),
            None => old(stored).token,
        })),
{
    if let Some(u) = url {
        stored.url = Some(u);
    }
    if let Some(t) = token {
        if t.as_str().is_empty() {
            return Err(EMPTY_TOKEN);
        }
        stored.token = Some(t);
    }
    Ok(())
}

} // verus!
