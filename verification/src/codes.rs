use vstd::prelude::*;

use crate::text::str_eq;

verus! {

/// A single-use-tracked access code: the code string, an optional expiry,
/// and how many times it has validated successfully.
#[derive(Clone, Debug)]
pub struct AccessCode {
    /// The code itself.
    pub code: String,
    /// When set, the code is unusable strictly after this instant (ms).
    pub expires_at: Option<u64>,
    /// How many times the code validated successfully; grows monotonically.
    pub usage_count: u64,
}

/// Whether the code is usable at `now`: a code past its expiry is never
/// valid, whatever its usage count.
pub open spec fn code_usable(c: AccessCode, now: u64) -> bool {
    match c.expires_at {
        Some(t) => now <= t,
        None => true,
    }
}

/// The code after one successful validation: its usage count advanced by
/// one, saturating at the type's limit.
pub open spec fn consumed_code(c: AccessCode) -> AccessCode {
    AccessCode {
        usage_count: if c.usage_count == u64::MAX {
            u64::MAX
        } else {
            (c.usage_count + 1) as u64
        },
        ..c
    }
}

/// The first stored code with the given string, if any.
pub open spec fn first_match(codes: Seq<AccessCode>, code: Seq<char>) -> Option<int>
    decreases codes.len(),
{
    if codes.len() == 0 {
        None
    } else if codes[0].code@ == code {
        Some(0int)
    } else {
        match first_match(codes.drop_first(), code) {
            Some(i) => Some(i + 1),
            None => None,
        }
    }
}

/// The durable store of access codes the validator consults.
#[derive(Debug)]
pub struct AccessCodeStore {
    /// The stored codes.
    pub codes: Vec<AccessCode>,
}

impl AccessCodeStore {
    /// An empty store.
    pub fn new() -> (r: AccessCodeStore)
        ensures
            r.codes@ =~= Seq::<AccessCode>::empty(),
    {
        AccessCodeStore { codes: Vec::new() }
    }

    /// Adds a code to the store.
    pub fn add(&mut self, code: AccessCode)
        ensures
            final(self).codes@ == old(self).codes@.push(code),
    {
        self.codes.push(code);
    }

    /// Validates a code and consumes one use of it: a stored, unexpired code
    /// validates and its usage count advances; a missing or expired code
    /// fails and the store is left untouched.
    pub fn is_valid_code(&mut self, code: &str, now: u64) -> (r: bool)
        ensures
            match first_match(old(self).codes@, code@) {
                None => !r && final(self).codes@ == old(self).codes@,
                Some(i) => {
                    if code_usable(old(self).codes@[i], now) {
                        r && final(self).codes@ == old(self).codes@.update(
                            i,
                            consumed_code(old(self).codes@[i]),
                        )
                    } else {
                        !r && final(self).codes@ == old(self).codes@
                    }
                },
            },
    {
        let ghost orig = self.codes@;
        let n = self.codes.len();
        let mut i: usize = 0;
        proof {
            assert(orig.skip(0) =~= orig);
        }
        while i < n
            invariant
                n == self.codes.len(),
                i <= n,
                orig == old(self).codes@,
                self.codes@ == orig,
                first_match(orig, code@) == match first_match(orig.skip(i as int), code@) {
                    Some(j) => Some(i + j),
                    None => None::<int>,
                },
            decreases n - i,
        {
            proof {
                assert(orig.skip(i as int)[0] == orig[i as int]);
            }
            if str_eq(self.codes[i].code.as_str(), code) {
                proof {
                    assert(orig.skip(i as int).len() > 0);
                    assert(orig.skip(i as int)[0].code@ == code@);
                    assert(first_match(orig.skip(i as int), code@) == Some(0int));
                    assert(first_match(orig, code@) == Some(i as int));
                }
                let usable: bool = match self.codes[i].expires_at {
                    Some(t) => now <= t,
                    None => true,
                };
                if usable {
                    let mut found = self.codes.remove(i);
                    found.usage_count = if found.usage_count == u64::MAX {
                        u64::MAX
                    } else {
                        found.usage_count + 1
                    };
                    proof {
                        assert(found == consumed_code(orig[i as int]));
                    }
                    self.codes.insert(i, found);
                    proof {
                        assert(self.codes@ =~= orig.update(i as int, consumed_code(orig[i as int])));
                    }
                    return true;
                } else {
                    return false;
                }
            }
            proof {
                assert(orig.skip(i as int).drop_first() =~= orig.skip(i as int + 1));
            }
            i += 1;
        }
        proof {
            assert(orig.skip(n as int).len() == 0);
        }
        false
    }
}

} // verus!
