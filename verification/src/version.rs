//! Version strings: dot-separated numeric components, compared
//! left to right with missing components reading as zero.  Parts that
//! are not a number (empty, non-digit, too large) are skipped, as a
//! lenient parser does.

use vstd::prelude::*;
use vstd::string::StrSliceExecFns;
use vstd::string::StringExecFns;

use crate::num::len_from;

verus! {

pub open spec fn is_digit(c: char) -> bool {
    '0' <= c && c <= '9'
}

pub open spec fn digit_val(c: char) -> int {
    c as int - 48
}

pub open spec fn all_digits(s: Seq<char>) -> bool {
    forall|i: int| 0 <= i < s.len() ==> is_digit(#[trigger] s[i])
}

/// The number a run of digits denotes.
pub open spec fn digits_val(s: Seq<char>) -> int
    decreases s.len(),
{
    if s.len() == 0 {
        0
    } else {
        digits_val(s.drop_last()) * 10 + digit_val(s.last())
    }
}

proof fn lemma_digits_val_nonneg(s: Seq<char>)
    requires
        all_digits(s),
    ensures
        digits_val(s) >= 0,
    decreases s.len(),
{
    if s.len() > 0 {
        assert(all_digits(s.drop_last()));
        lemma_digits_val_nonneg(s.drop_last());
        vstd::arithmetic::mul::lemma_mul_nonnegative(digits_val(s.drop_last()), 10);
        vstd::arithmetic::mul::lemma_mul_is_commutative(digits_val(s.drop_last()), 10);
    }
}

/// The text split at every dot; always at least one (possibly empty) part.
pub open spec fn split_dots(s: Seq<char>) -> Seq<Seq<char>>
    decreases s.len(),
{
    if s.len() == 0 {
        seq![Seq::<char>::empty()]
    } else if s.last() == '.' {
        split_dots(s.drop_last()).push(Seq::<char>::empty())
    } else {
        let p = split_dots(s.drop_last());
        p.update(p.len() - 1, p.last().push(s.last()))
    }
}

proof fn lemma_split_dots_nonempty(s: Seq<char>)
    ensures
        split_dots(s).len() >= 1,
    decreases s.len(),
{
    if s.len() > 0 {
        lemma_split_dots_nonempty(s.drop_last());
    }
}

/// What a part contributes: its number, if it is one.
pub open spec fn parse_part(p: Seq<char>) -> Option<int> {
    if p.len() > 0 && all_digits(p) && digits_val(p) <= 0xffffffff {
        Some(digits_val(p))
    } else {
        None
    }
}

/// The numbers of the parts that parse, in order.
pub open spec fn parsed_parts(ps: Seq<Seq<char>>) -> Seq<int>
    decreases ps.len(),
{
    if ps.len() == 0 {
        Seq::empty()
    } else {
        let rest = parsed_parts(ps.drop_last());
        match parse_part(ps.last()) {
            Some(v) => rest.push(v),
            None => rest,
        }
    }
}

/// The numeric components of a version string.
pub open spec fn version_components(s: Seq<char>) -> Seq<int> {
    parsed_parts(split_dots(s))
}

/// A component, or zero past the end.
pub open spec fn comp_at(v: Seq<int>, i: int) -> int {
    if 0 <= i < v.len() {
        v[i]
    } else {
        0
    }
}

/// Lexicographic comparison from component `i` on, zero-padded.
pub open spec fn cmp_from(a: Seq<int>, b: Seq<int>, i: int) -> int
    decreases len_from(a.len() as int, i) + len_from(b.len() as int, i),
{
    if i >= a.len() && i >= b.len() {
        0
    } else if comp_at(a, i) > comp_at(b, i) {
        1
    } else if comp_at(a, i) < comp_at(b, i) {
        -1
    } else {
        cmp_from(a, b, i + 1)
    }
}

/// How two version strings compare: 1, -1 or 0.
pub open spec fn version_cmp(a: Seq<char>, b: Seq<char>) -> int {
    cmp_from(version_components(a), version_components(b), 0)
}

proof fn lemma_cmp_prefix(a: Seq<int>, b: Seq<int>, i: int)
    requires
        0 <= i,
        forall|j: int| 0 <= j < i ==> comp_at(a, j) == comp_at(b, j),
    ensures
        cmp_from(a, b, 0) == cmp_from(a, b, i),
    decreases i,
{
    if i > 0 {
        lemma_cmp_prefix(a, b, i - 1);
        if i - 1 >= a.len() && i - 1 >= b.len() {
            assert(cmp_from(a, b, i - 1) == 0);
            assert(i >= a.len() && i >= b.len());
        }
    }
}

/// Parse the numeric components of a version string.
pub fn parse_version(s: &str) -> (r: Vec<u32>)
    ensures
        r@.len() == version_components(s@).len(),
        forall|k: int| 0 <= k < r@.len() ==> r@[k] == version_components(s@)[k],
{
    let n = s.unicode_len();
    let mut parts: Vec<u32> = Vec::new();
    let mut cur_len: usize = 0;
    let mut cur_ok = true;
    let mut value: u64 = 0;
    let mut i: usize = 0;
    while i < n
        invariant
            n == s@.len(),
            i <= n,
            split_dots(s@.take(i as int)).len() >= 1,
            cur_len == split_dots(s@.take(i as int)).last().len(),
            cur_ok == all_digits(split_dots(s@.take(i as int)).last()),
            cur_ok ==> (value <= 0xffffffff && value == digits_val(
                split_dots(s@.take(i as int)).last(),
            )) || (value == 0x100000000 && digits_val(split_dots(s@.take(i as int)).last())
                > 0xffffffff),
            cur_len <= i,
            parts@.len() == parsed_parts(split_dots(s@.take(i as int)).drop_last()).len(),
            forall|k: int| 0 <= k < parts@.len() ==> parts@[k] == parsed_parts(
                split_dots(s@.take(i as int)).drop_last(),
            )[k],
        decreases n - i,
    {
        proof {
            assert(s@.take(i as int + 1).drop_last() =~= s@.take(i as int));
            assert(s@.take(i as int + 1).last() == s@[i as int]);
            lemma_split_dots_nonempty(s@.take(i as int));
        }
        let c = s.get_char(i);
        if c == '.' {
            proof {
                assert(split_dots(s@.take(i as int + 1)) == split_dots(
                    s@.take(i as int),
                ).push(Seq::<char>::empty()));
                assert(split_dots(s@.take(i as int + 1)).drop_last() =~= split_dots(
                    s@.take(i as int),
                ));
                if cur_ok && cur_len > 0 && value <= 0xffffffff {
                    assert(parse_part(split_dots(s@.take(i as int)).last()) == Some(
                        value as int,
                    ));
                } else {
                    if cur_ok && cur_len > 0 {
                        assert(digits_val(split_dots(s@.take(i as int)).last())
                            > 0xffffffff);
                    }
                    assert(parse_part(split_dots(s@.take(i as int)).last()) is None);
                }
                assert(split_dots(s@.take(i as int)) == split_dots(
                    s@.take(i as int + 1),
                ).drop_last().drop_last().push(split_dots(s@.take(i as int)).last()));
            }
            if cur_ok && cur_len > 0 && value <= 0xffffffff {
                parts.push(value as u32);
            }
            proof {
                assert(parsed_parts(split_dots(s@.take(i as int + 1)).drop_last())
                    == parsed_parts(split_dots(s@.take(i as int))));
            }
            cur_len = 0;
            cur_ok = true;
            value = 0;
        } else {
            proof {
                let p = split_dots(s@.take(i as int));
                let q = split_dots(s@.take(i as int + 1));
                assert(q == p.update(p.len() - 1, p.last().push(s@[i as int])));
                assert(q.drop_last() =~= p.drop_last());
                assert(q.last() == p.last().push(s@[i as int]));
                assert(q.last().drop_last() =~= p.last());
                assert(q.last().last() == s@[i as int]);
                assert(digits_val(q.last()) == digits_val(p.last()) * 10 + digit_val(
                    s@[i as int],
                ));
                assert(all_digits(q.last()) == (all_digits(p.last()) && is_digit(
                    s@[i as int],
                ))) by {
                    assert(forall|k: int| 0 <= k < p.last().len() ==> #[trigger] q.last()[k]
                        == p.last()[k]);
                }
            }
            let digit = c >= '0' && c <= '9';
            if !digit {
                cur_ok = false;
            } else if cur_ok {
                let d: u64 = (c as u32 as u64) - 48;
                proof {
                    if value == 0x100000000 {
                        let pl = split_dots(s@.take(i as int)).last();
                        lemma_digits_val_nonneg(pl);
                        vstd::arithmetic::mul::lemma_mul_inequality(
                            0x100000000,
                            digits_val(pl),
                            10,
                        );
                    }
                }
                if value <= 0xffffffff {
                    value = value * 10 + d;
                    if value > 0xffffffff {
                        value = 0x100000000;
                        proof {
                            let pl = split_dots(s@.take(i as int)).last();
                            let ql = split_dots(s@.take(i as int + 1)).last();
                            assert(digits_val(ql) > 0xffffffff);
                        }
                    }
                } else {
                    proof {
                        let pl = split_dots(s@.take(i as int)).last();
                        let ql = split_dots(s@.take(i as int + 1)).last();
                        assert(digits_val(pl) * 10 >= 0x100000000 * 10) by {
                            vstd::arithmetic::mul::lemma_mul_inequality(
                                0x100000000,
                                digits_val(pl),
                                10,
                            );
                        }
                        assert(digits_val(ql) > 0xffffffff);
                    }
                }
            }
            cur_len = cur_len + 1;
        }
        i += 1;
    }
    proof {
        assert(s@.take(n as int) =~= s@);
        lemma_split_dots_nonempty(s@);
        if cur_ok && cur_len > 0 && value <= 0xffffffff {
            assert(parse_part(split_dots(s@).last()) == Some(value as int));
        } else {
            if cur_ok && cur_len > 0 {
                assert(digits_val(split_dots(s@).last()) > 0xffffffff);
            }
            assert(parse_part(split_dots(s@).last()) is None);
        }
    }
    if cur_ok && cur_len > 0 && value <= 0xffffffff {
        parts.push(value as u32);
    }
    parts
}

/// Compare two version strings component by component: 1 when the first
/// is newer, -1 when it is older, 0 when they read the same.
pub fn compare_versions(version1: &str, version2: &str) -> (r: i32)
    ensures
        r == version_cmp(version1@, version2@),
        -1 <= r <= 1,
{
    let a = parse_version(version1);
    let b = parse_version(version2);
    let ghost ca = version_components(version1@);
    let ghost cb = version_components(version2@);
    let la = a.len();
    let lb = b.len();
    let max_len = if la > lb {
        la
    } else {
        lb
    };
    let mut i: usize = 0;
    while i < max_len
        invariant
            ca == version_components(version1@),
            cb == version_components(version2@),
            la == a@.len(),
            lb == b@.len(),
            ca.len() == la,
            cb.len() == lb,
            forall|k: int| 0 <= k < la ==> a@[k] == ca[k],
            forall|k: int| 0 <= k < lb ==> b@[k] == cb[k],
            max_len == if la > lb {
                la as int
            } else {
                lb as int
            },
            i <= max_len,
            forall|j: int| 0 <= j < i ==> comp_at(ca, j) == comp_at(cb, j),
        decreases max_len - i,
    {
        let va: u32 = if i < la {
            a[i]
        } else {
            0
        };
        let vb: u32 = if i < lb {
            b[i]
        } else {
            0
        };
        proof {
            assert(va == comp_at(ca, i as int));
            assert(vb == comp_at(cb, i as int));
            lemma_cmp_prefix(ca, cb, i as int);
        }
        if va > vb {
            proof {
                assert(cmp_from(ca, cb, i as int) == 1);
            }
            return 1;
        } else if va < vb {
            proof {
                assert(cmp_from(ca, cb, i as int) == -1);
            }
            return -1;
        }
        i += 1;
    }
    proof {
        lemma_cmp_prefix(ca, cb, max_len as int);
        assert(cmp_from(ca, cb, max_len as int) == 0);
    }
    0
}

/// The outcome of one update check, handed to the UI.
pub struct UpdateCheckResult {
    pub local_version: String,
    pub remote_version: String,
    pub has_update: bool,
    pub success: bool,
    pub error_message: Option<String>,
}

/// Judge an update check: with the remote version in hand, an update
/// exists exactly when the remote version compares newer than the local
/// one; a failed fetch reports its message and never claims an update.
pub fn evaluate_update_check(local_version: String, remote: Result<String, String>) -> (r:
    UpdateCheckResult)
    ensures
        r.local_version == local_version,
        remote matches Ok(v) ==> ({
            &&& r.remote_version == v
            &&& r.success
            &&& r.error_message is None
            &&& r.has_update == (version_cmp(v@, local_version@) > 0)
        }),
        remote matches Err(m) ==> ({
            &&& r.remote_version@ == "unknown"@
            &&& !r.success
            &&& r.error_message == Some(m)
            &&& !r.has_update
        }),
{
    match remote {
        Ok(v) => {
            let has_update = compare_versions(v.as_str(), local_version.as_str()) > 0;
            UpdateCheckResult {
                local_version,
                remote_version: v,
                has_update,
                success: true,
                error_message: None,
            }
        }
        Err(m) => UpdateCheckResult {
            local_version,
            remote_version: String::from_str("unknown"),
            has_update: false,
            success: false,
            error_message: Some(m),
        },
    }
}

} // verus!
