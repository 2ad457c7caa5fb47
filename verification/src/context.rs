use vstd::prelude::*;

use crate::seqs::{lemma_filter_empty, lemma_filter_step};
use crate::text::push_char;

verus! {

/// The longest user-agent string that is kept; anything longer is cut.
pub const MAX_USER_AGENT_LENGTH: usize = 500;

/// Security-relevant facts about one request, resolved upstream: the client's
/// address (from a trusted proxy header when present, otherwise the peer
/// address) and its user agent, already sanitized.
#[derive(Clone, Debug)]
pub struct SecurityContext {
    /// The resolved client address.
    pub ip_address: String,
    /// The sanitized user agent, when one was supplied.
    pub user_agent: Option<String>,
}

impl SecurityContext {
    /// Bundles the resolved identity and user agent of one request.
    pub fn new(ip_address: String, user_agent: Option<String>) -> (r: SecurityContext)
        ensures
            r.ip_address == ip_address,
            r.user_agent == user_agent,
    {
        SecurityContext { ip_address, user_agent }
    }
}

/// Whether the character is a control code: the Unicode `Cc` category,
/// exactly the ranges U+0000 to U+001F and U+007F to U+009F.
pub open spec fn spec_is_control(c: char) -> bool {
    (c as u32) < 0x20 || (0x7f <= (c as u32) && (c as u32) <= 0x9f)
}

/// Whether sanitizing keeps the character: control codes go, except that
/// blanks and tabs stay.
pub open spec fn keeps_char(c: char) -> bool {
    !spec_is_control(c) || c == ' ' || c == '\t'
}

/// The sanitizer's test as a predicate on characters.
pub open spec fn kept_chars() -> spec_fn(char) -> bool {
    |c: char| keeps_char(c)
}

/// What sanitizing leaves of a user agent: its non-control characters (blanks
/// and tabs kept), cut to the accepted length.
pub open spec fn spec_sanitize(s: Seq<char>) -> Seq<char> {
    let kept = s.filter(kept_chars());
    if kept.len() <= MAX_USER_AGENT_LENGTH {
        kept
    } else {
        kept.take(MAX_USER_AGENT_LENGTH as int)
    }
}

/// Strips control characters from a user agent (keeping blanks and tabs) and
/// cuts it to the accepted length, so that an attacker cannot smuggle
/// terminal escapes or unbounded noise into the audit trail.
pub fn sanitize_user_agent(user_agent: &str) -> (r: String)
    ensures
        r@ == spec_sanitize(user_agent@),
{
    let n = user_agent.unicode_len();
    let mut out = String::new();
    let mut i: usize = 0;
    proof {
        lemma_filter_empty(user_agent@.take(0), kept_chars());
        assert(user_agent@.take(0).len() == 0);
    }
    while i < n
        invariant
            n == user_agent@.len(),
            i <= n,
            out@ =~= user_agent@.take(i as int).filter(kept_chars()),
        decreases n - i,
    {
        let c = user_agent.get_char(i);
        let c32 = c as u32;
        let is_ctl: bool = c32 < 0x20 || (0x7f <= c32 && c32 <= 0x9f);
        let keep: bool = !is_ctl || c == ' ' || c == '\t';
        proof {
            assert(user_agent@.take(i as int + 1).drop_last() =~= user_agent@.take(i as int));
            assert(user_agent@.take(i as int + 1).last() == user_agent@[i as int]);
            lemma_filter_step(user_agent@.take(i as int + 1), kept_chars());
        }
        if keep {
            push_char(&mut out, c);
        }
        i += 1;
    }
    proof {
        assert(user_agent@.take(n as int) =~= user_agent@);
    }
    if out.unicode_len() > MAX_USER_AGENT_LENGTH {
        let cut = out.as_str().substring_char(0, MAX_USER_AGENT_LENGTH);
        String::from_str(cut)
    } else {
        out
    }
}

} // verus!
