//! The conservative address validator applied to from- and to-addresses.
//!
//! An address is accepted when a prefix of it matches
//! `local '@' labels '.' tld`: a local part of `[a-z0-9_+]` characters with
//! interior dots allowed, then `@`, then alphanumeric labels joined by
//! single `-` or `.` separators, a dot, and at least two alphabetic
//! characters of top-level domain. Trailing characters beyond the match are
//! not rejected; the grammar is case-sensitive over lower case.

use vstd::prelude::*;

use crate::Error;

verus! {

pub open spec fn is_lower(c: char) -> bool {
    97 <= c as u32 && c as u32 <= 122
}

pub open spec fn is_num(c: char) -> bool {
    48 <= c as u32 && c as u32 <= 57
}

pub open spec fn is_alnum(c: char) -> bool {
    is_lower(c) || is_num(c)
}

/// A character allowed at the edges of the local part.
pub open spec fn is_local_char(c: char) -> bool {
    is_alnum(c) || c == '_' || c == '+'
}

/// A character allowed inside the local part.
pub open spec fn is_local_mid(c: char) -> bool {
    is_local_char(c) || c == '.'
}

/// A label separator in the domain part.
pub open spec fn is_sep(c: char) -> bool {
    c == '-' || c == '.'
}

/// The local part: non-empty, local characters with interior dots, not
/// beginning or ending with a dot.
pub open spec fn spec_valid_local(s: Seq<char>) -> bool {
    &&& s.len() >= 1
    &&& is_local_char(s[0])
    &&& is_local_char(s[s.len() - 1])
    &&& forall|i: int| 0 <= i < s.len() ==> is_local_mid(#[trigger] s[i])
}

/// A prefix of the domain's label region: characters in class, beginning
/// alphanumeric, every separator followed by an alphanumeric.
pub open spec fn labels_pre(s: Seq<char>) -> bool {
    &&& forall|i: int| 0 <= i < s.len() ==> is_alnum(#[trigger] s[i]) || is_sep(s[i])
    &&& s.len() >= 1 ==> is_alnum(s[0])
    &&& forall|i: int| 0 <= i < s.len() - 1 ==> is_sep(#[trigger] s[i]) ==> is_alnum(s[i + 1])
}

/// A complete label region: as `labels_pre`, non-empty, ending
/// alphanumeric.
pub open spec fn labels_valid(s: Seq<char>) -> bool {
    &&& labels_pre(s)
    &&& s.len() >= 1
    &&& is_alnum(s[s.len() - 1])
}

/// Position `r` of the domain text closes a match: a valid label region
/// before it, a dot at it, and at least two alphabetic characters after it.
pub open spec fn domain_witness(d: Seq<char>, r: int) -> bool {
    &&& 0 <= r && r + 2 < d.len()
    &&& labels_valid(d.subrange(0, r))
    &&& d[r] == '.'
    &&& is_lower(d[r + 1])
    &&& is_lower(d[r + 2])
}

/// Some prefix of the domain text matches `labels '.' tld`.
pub open spec fn spec_domain_match(d: Seq<char>) -> bool {
    exists|r: int| domain_witness(d, r)
}

/// A prefix of the address matches the validator's grammar.
pub open spec fn spec_addr_valid(a: Seq<char>) -> bool {
    exists|l: int|
        #![auto]
        1 <= l < a.len() && a[l] == '@' && spec_valid_local(a.subrange(0, l))
            && spec_domain_match(a.skip(l + 1))
}

fn exec_is_lower(c: char) -> (r: bool)
    ensures
        r == is_lower(c),
{
    let u = c as u32;
    97 <= u && u <= 122
}

fn exec_is_alnum(c: char) -> (r: bool)
    ensures
        r == is_alnum(c),
{
    let u = c as u32;
    (97 <= u && u <= 122) || (48 <= u && u <= 57)
}

fn exec_is_local_mid(c: char) -> (r: bool)
    ensures
        r == is_local_mid(c),
{
    exec_is_alnum(c) || c == '_' || c == '+' || c == '.'
}

/// Validate an address against the grammar; a non-matching address is the
/// `MailBoxName` error carrying the address itself.
pub fn check_address(address: &str) -> (r: Result<(), Error>)
    ensures
        r is Ok <==> spec_addr_valid(address@),
        r matches Err(e) ==> e matches Error::MailBoxName(s) && s@ == address@,
{
    let a = address;
    let ghost av = a@;
    let n = a.unicode_len();
    // scan the local part: it runs to the first character outside its class
    let mut i: usize = 0;
    #[verifier::loop_isolation(false)]
    while i < n && exec_is_local_mid(a.get_char(i))
        invariant
            i <= n,
            forall|k: int| 0 <= k < i ==> is_local_mid(#[trigger] av[k]),
        decreases n - i,
    {
        i = i + 1;
    }
    let local_ok = i >= 1 && i < n && a.get_char(i) == '@' && exec_is_local_mid(a.get_char(0))
        && !(a.get_char(0) == '.') && !(a.get_char(i - 1) == '.');
    if !local_ok {
        proof {
            if spec_addr_valid(av) {
                let l = choose|l: int|
                    #![auto]
                    1 <= l < av.len() && av[l] == '@' && spec_valid_local(av.subrange(0, l))
                        && spec_domain_match(av.skip(l + 1));
                assert forall|k: int| 0 <= k < l implies is_local_mid(#[trigger] av[k]) by {
                    assert(av.subrange(0, l)[k] == av[k]);
                    assert(is_local_mid(av.subrange(0, l)[k]));
                }
                assert(l == i);
                assert(is_local_char(av.subrange(0, l)[0]));
                assert(is_local_char(av.subrange(0, l)[l - 1]));
                assert(false);
            }
        }
        return Err(Error::MailBoxName(address.to_owned()));
    }
    proof {
        if spec_addr_valid(av) {
            let l = choose|l: int|
                #![auto]
                1 <= l < av.len() && av[l] == '@' && spec_valid_local(av.subrange(0, l))
                    && spec_domain_match(av.skip(l + 1));
            assert forall|k: int| 0 <= k < l implies is_local_mid(#[trigger] av[k]) by {
                assert(av.subrange(0, l)[k] == av[k]);
                assert(is_local_mid(av.subrange(0, l)[k]));
            }
            assert(l == i);
        }
        assert(spec_valid_local(av.subrange(0, i as int))) by {
            assert(av.subrange(0, i as int)[0] == av[0]);
            assert(av.subrange(0, i as int)[i - 1] == av[i - 1]);
        }
    }
    // scan the domain: at each dot with a valid label region before it,
    // two alphabetic characters suffice for the top-level domain
    let d_start = i + 1;
    let ghost d = av.skip(d_start as int);
    let mut j: usize = d_start;
    let mut valid = true;
    let mut prev_alnum = false;
    let mut found = false;
    #[verifier::loop_isolation(false)]
    while j < n && !found
        invariant
            d_start <= j <= n,
            d == av.skip(d_start as int),
            d.len() == n - d_start,
            valid == labels_pre(d.subrange(0, j - d_start)),
            prev_alnum == (j > d_start && is_alnum(d[j - d_start - 1])),
            !found ==> forall|rr: int| 0 <= rr < j - d_start ==> !domain_witness(d, rr),
            found ==> spec_domain_match(d),
        decreases n - j + (if found { 0int } else { 1int }),
    {
        let ghost r = j - d_start;
        proof {
            assert(d[r] == av[j as int]);
        }
        let c = a.get_char(j);
        if c == '.' && valid && prev_alnum && n - j > 2 && exec_is_lower(a.get_char(j + 1))
            && exec_is_lower(a.get_char(j + 2)) {
            proof {
                assert(d[r + 1] == av[j + 1]);
                assert(d[r + 2] == av[j + 2]);
                assert(labels_valid(d.subrange(0, r))) by {
                    assert(d.subrange(0, r)[r - 1] == d[r - 1]);
                }
                assert(domain_witness(d, r));
            }
            found = true;
        } else {
            proof {
                assert(d.subrange(0, r + 1) =~= d.subrange(0, r).push(d[r]));
                if !(c == '.' && valid && prev_alnum && j + 2 < n && (j + 2 < n
                    ==> is_lower(av[j + 1]) && is_lower(av[j + 2]))) {
                    if 0 <= r && r + 2 < d.len() && labels_valid(d.subrange(0, r)) && d[r] == '.'
                        && is_lower(d[r + 1]) && is_lower(d[r + 2]) {
                        assert(d.subrange(0, r)[r - 1] == d[r - 1]);
                        assert(d[r + 1] == av[j + 1]);
                        assert(d[r + 2] == av[j + 2]);
                        assert(false);
                    }
                }
            }
            let c_alnum = exec_is_alnum(c);
            let c_sep = c == '-' || c == '.';
            let new_valid = if c_alnum {
                valid
            } else if c_sep {
                valid && prev_alnum
            } else {
                false
            };
            proof {
                let s0 = d.subrange(0, r);
                let s2 = d.subrange(0, r + 1);
                assert(s2.len() == r + 1);
                assert(s2[r] == d[r]);
                assert forall|k: int| 0 <= k < r implies s2[k] == s0[k] by {}
                if new_valid {
                    assert(labels_pre(s2)) by {
                        assert forall|k: int|
                            0 <= k < s2.len() implies is_alnum(#[trigger] s2[k]) || is_sep(
                            s2[k],
                        ) by {
                            if k < r {
                                assert(s2[k] == s0[k]);
                            }
                        }
                        assert forall|k: int|
                            0 <= k < s2.len() - 1 && is_sep(#[trigger] s2[k]) implies is_alnum(
                            s2[k + 1],
                        ) by {
                            if k < r - 1 {
                                assert(s2[k] == s0[k]);
                                assert(s2[k + 1] == s0[k + 1]);
                            } else {
                                // k == r - 1: the previous character was
                                // alphanumeric, never a separator
                                assert(s2[k] == s0[k]);
                            }
                        }
                    }
                } else {
                    if labels_pre(s2) {
                        if !valid {
                            // the shorter prefix already violated the rules
                            assert(labels_pre(s0)) by {
                                assert forall|k: int|
                                    0 <= k < s0.len() implies is_alnum(#[trigger] s0[k]) || is_sep(
                                    s0[k],
                                ) by {
                                    assert(s0[k] == s2[k]);
                                }
                                assert forall|k: int|
                                    0 <= k < s0.len() - 1 && is_sep(
                                        #[trigger] s0[k],
                                    ) implies is_alnum(s0[k + 1]) by {
                                    assert(s0[k] == s2[k]);
                                    assert(s0[k + 1] == s2[k + 1]);
                                }
                            }
                            assert(false);
                        } else if c_sep {
                            // a separator may not start the region nor
                            // follow a non-alphanumeric character
                            if r == 0 {
                                assert(is_alnum(s2[0]));
                                assert(false);
                            } else {
                                assert(s2[r - 1] == s0[r - 1]);
                                assert(is_alnum(s2[r - 1]) || is_sep(s2[r - 1]));
                                assert(false);
                            }
                        } else {
                            // a character outside both classes
                            assert(is_alnum(s2[r]) || is_sep(s2[r]));
                            assert(false);
                        }
                    }
                }
            }
            valid = new_valid;
            prev_alnum = c_alnum;
            j = j + 1;
        }
    }
    if found {
        proof {
            assert(spec_addr_valid(av)) by {
                assert(1 <= i < av.len() && av[i as int] == '@' && spec_valid_local(
                    av.subrange(0, i as int),
                ) && spec_domain_match(av.skip(i + 1)));
            }
        }
        Ok(())
    } else {
        proof {
            if spec_addr_valid(av) {
                let l = choose|l: int|
                    #![auto]
                    1 <= l < av.len() && av[l] == '@' && spec_valid_local(av.subrange(0, l))
                        && spec_domain_match(av.skip(l + 1));
                assert forall|k: int| 0 <= k < l implies is_local_mid(#[trigger] av[k]) by {
                    assert(av.subrange(0, l)[k] == av[k]);
                    assert(is_local_mid(av.subrange(0, l)[k]));
                }
                assert(l == i);
                let rr = choose|rr: int| domain_witness(d, rr);
                assert(false);
            }
        }
        Err(Error::MailBoxName(address.to_owned()))
    }
}

} // verus!
