//! Decoding of the `maps` pseudo-file of procfs.
//!
//! The kernel describes each mapped region on one text line of the form
//! `lower-upper flags ...`, where `lower` and `upper` are hexadecimal
//! addresses and `flags` is a short permission column such as `rw-p`. The
//! functions here turn such text into [`Region`] values; reading the
//! pseudo-file itself is I/O and stays with the embedder.

use vstd::prelude::*;
use crate::protection::Protection;
use crate::Region;

verus! {

/// The characters that separate the columns of a maps line.
pub open spec fn is_ws(c: char) -> bool {
    c == ' ' || c == '\t'
}

/// The given text without its leading column separators.
pub open spec fn skip_ws(s: Seq<char>) -> Seq<char>
    decreases s.len(),
{
    if s.len() > 0 && is_ws(s[0]) {
        skip_ws(s.drop_first())
    } else {
        s
    }
}

/// The leading column of the given text: its characters up to the first
/// separator.
pub open spec fn first_token(s: Seq<char>) -> Seq<char>
    decreases s.len(),
{
    if s.len() > 0 && !is_ws(s[0]) {
        seq![s[0]] + first_token(s.drop_first())
    } else {
        Seq::empty()
    }
}

/// The given text without its leading column.
pub open spec fn after_token(s: Seq<char>) -> Seq<char>
    decreases s.len(),
{
    if s.len() > 0 && !is_ws(s[0]) {
        after_token(s.drop_first())
    } else {
        s
    }
}

/// Whether the character is a hexadecimal digit.
pub open spec fn is_hex_digit(c: char) -> bool {
    (48 <= c as u32 && c as u32 <= 57) || (97 <= c as u32 && c as u32 <= 102) || (65 <= c as u32
        && c as u32 <= 70)
}

/// The numeric value of a hexadecimal digit.
pub open spec fn hex_digit_value(c: char) -> nat
    recommends
        is_hex_digit(c),
{
    if 48 <= c as u32 && c as u32 <= 57 {
        (c as u32 - 48) as nat
    } else if 97 <= c as u32 && c as u32 <= 102 {
        (c as u32 - 87) as nat
    } else {
        (c as u32 - 55) as nat
    }
}

/// Whether every character of the text is a hexadecimal digit.
pub open spec fn all_hex_digits(s: Seq<char>) -> bool {
    forall|i: int| 0 <= i < s.len() ==> is_hex_digit(#[trigger] s[i])
}

/// The number denoted by a sequence of hexadecimal digits, most significant
/// first.
pub open spec fn hex_value(s: Seq<char>) -> nat
    decreases s.len(),
{
    if s.len() == 0 {
        0
    } else {
        hex_value(s.drop_last()) * 16 + hex_digit_value(s.last())
    }
}

/// Whether the text is a well-formed hexadecimal address: non-empty, all
/// digits, and a value that fits the address space.
pub open spec fn is_hex_token(s: Seq<char>) -> bool {
    s.len() > 0 && all_hex_digits(s) && hex_value(s) <= usize::MAX
}

/// The index of the first `-` in the text, if any.
pub open spec fn find_dash(s: Seq<char>) -> Option<int>
    decreases s.len(),
{
    if s.len() == 0 {
        None
    } else if s[0] == '-' {
        Some(0int)
    } else {
        match find_dash(s.drop_first()) {
            None => None,
            Some(i) => Some(i + 1),
        }
    }
}

/// The protection attributes denoted by a permission column: the first
/// three characters stand for read, write and execute in turn, with `-`
/// marking an attribute that is not set.
pub open spec fn spec_flags_protection(s: Seq<char>) -> Protection {
    Protection::spec_from_rwx(
        s.len() > 0 && s[0] != '-',
        s.len() > 1 && s[1] != '-',
        s.len() > 2 && s[2] != '-',
    )
}

/// Whether a permission column marks the mapping as shared: its last
/// character is `s` (as opposed to `p` for private).
pub open spec fn spec_flags_shared(s: Seq<char>) -> bool {
    s.len() > 0 && s.last() == 's'
}

/// The address bounds denoted by the first column of a maps line: two
/// hexadecimal numbers separated by a dash, with the upper bound at or
/// above the lower one.
pub open spec fn spec_parse_addresses(t: Seq<char>) -> Option<(int, int)> {
    match find_dash(t) {
        None => None,
        Some(i) => {
            let lo = t.take(i);
            let hi = t.skip(i + 1);
            if is_hex_token(lo) && is_hex_token(hi) && hex_value(lo) <= hex_value(hi) {
                Some((hex_value(lo) as int, hex_value(hi) as int))
            } else {
                None
            }
        },
    }
}

/// The region denoted by one maps line, if the line is well-formed: its
/// first column gives the bounds, its second the permissions. Anything
/// after the second column is ignored.
pub open spec fn spec_parse_line(line: Seq<char>) -> Option<Region> {
    let t1 = first_token(skip_ws(line));
    let rest = after_token(skip_ws(line));
    let t2 = first_token(skip_ws(rest));
    match spec_parse_addresses(t1) {
        None => None,
        Some(bounds) => if t2.len() > 0 {
            Some(
                Region {
                    base: bounds.0 as usize,
                    reserved: false,
                    guarded: false,
                    protection: spec_flags_protection(t2),
                    shared: spec_flags_shared(t2),
                    size: (bounds.1 - bounds.0) as usize,
                },
            )
        } else {
            None
        },
    }
}

/// The newline-terminated lines of the text, without their newlines; a
/// trailing fragment that no newline terminates is dropped. The second
/// argument accumulates the line being scanned.
pub open spec fn spec_lines_from(s: Seq<char>, cur: Seq<char>) -> Seq<Seq<char>>
    decreases s.len(),
{
    if s.len() == 0 {
        Seq::empty()
    } else if s[0] == '\n' {
        seq![cur] + spec_lines_from(s.drop_first(), Seq::empty())
    } else {
        spec_lines_from(s.drop_first(), cur.push(s[0]))
    }
}

/// The newline-terminated lines of the text, without their newlines.
pub open spec fn spec_lines(s: Seq<char>) -> Seq<Seq<char>> {
    spec_lines_from(s, Seq::empty())
}

/// Splits a maps listing into its lines.
///
/// Only newline-terminated lines count, so a listing that was cut short
/// mid-line loses its unfinished tail; each returned line excludes its
/// newline.
pub fn split_lines(maps: &str) -> (lines: Vec<String>)
    ensures
        lines@.map_values(|l: String| l@) == spec_lines(maps@),
{
    let n = maps.unicode_len();
    let mut lines: Vec<String> = Vec::new();
    let mut start: usize = 0;
    let mut i: usize = 0;
    proof {
        assert(maps@.skip(0) =~= maps@);
        assert(maps@.subrange(0, 0) =~= Seq::<char>::empty());
        assert(lines@.map_values(|l: String| l@) =~= Seq::<Seq<char>>::empty());
        assert(Seq::<Seq<char>>::empty() + spec_lines_from(maps@, Seq::<char>::empty())
            =~= spec_lines_from(maps@, Seq::<char>::empty()));
    }
    while i < n
        invariant
            start <= i <= n,
            n == maps@.len(),
            spec_lines(maps@) == lines@.map_values(|l: String| l@) + spec_lines_from(
                maps@.skip(i as int),
                maps@.subrange(start as int, i as int),
            ),
        decreases n - i,
    {
        let c = maps.get_char(i);
        proof {
            let s = maps@.skip(i as int);
            assert(s[0] == maps@[i as int]);
            assert(s.drop_first() =~= maps@.skip(i as int + 1));
        }
        if c == '\n' {
            let line = String::from_str(maps.substring_char(start, i));
            proof {
                let cur = maps@.subrange(start as int, i as int);
                let f = |l: String| l@;
                assert(line@ == cur);
                assert(lines@.push(line).map_values(f) =~= lines@.map_values(f) + seq![cur]);
                assert(lines@.map_values(f) + (seq![cur] + spec_lines_from(
                    maps@.skip(i as int + 1),
                    Seq::empty(),
                )) =~= (lines@.map_values(f) + seq![cur]) + spec_lines_from(
                    maps@.skip(i as int + 1),
                    Seq::empty(),
                ));
                assert(maps@.subrange(i as int + 1, i as int + 1) =~= Seq::<char>::empty());
            }
            lines.push(line);
            start = i + 1;
        } else {
            proof {
                assert(maps@.subrange(start as int, i as int).push(maps@[i as int])
                    =~= maps@.subrange(start as int, i as int + 1));
            }
        }
        i = i + 1;
    }
    proof {
        assert(maps@.skip(i as int) =~= Seq::<char>::empty());
        assert(lines@.map_values(|l: String| l@) + Seq::<Seq<char>>::empty() =~= lines@.map_values(
            |l: String| l@,
        ));
    }
    lines
}

/// A line that parses yields a region that does not wrap the address
/// space: the region's end is the line's upper bound, which fits it.
pub proof fn lemma_parse_line_wf(line: Seq<char>)
    ensures
        spec_parse_line(line) matches Some(region) ==> region.wf(),
{
}

/// Collects the characters of a string slice.
fn chars_of(s: &str) -> (v: Vec<char>)
    ensures
        v@ == s@,
{
    let n = s.unicode_len();
    let mut v: Vec<char> = Vec::new();
    let mut i: usize = 0;
    while i < n
        invariant
            i <= n,
            n == s@.len(),
            v@ == s@.take(i as int),
        decreases n - i,
    {
        v.push(s.get_char(i));
        proof {
            assert(v@ =~= s@.take(i as int + 1));
        }
        i = i + 1;
    }
    proof {
        assert(v@ =~= s@);
    }
    v
}

/// Advances past column separators.
fn skip_ws_from(v: &Vec<char>, i: usize) -> (j: usize)
    requires
        i <= v@.len(),
    ensures
        i <= j <= v@.len(),
        skip_ws(v@.skip(i as int)) == v@.skip(j as int),
        j < v@.len() ==> !is_ws(v@[j as int]),
{
    let n = v.len();
    let mut j = i;
    while j < n && (v[j] == ' ' || v[j] == '\t')
        invariant
            i <= j <= n,
            n == v@.len(),
            skip_ws(v@.skip(i as int)) == skip_ws(v@.skip(j as int)),
        decreases n - j,
    {
        proof {
            assert(v@.skip(j as int).drop_first() =~= v@.skip(j as int + 1));
        }
        j = j + 1;
    }
    proof {
        if j < n {
            assert(skip_ws(v@.skip(j as int)) == v@.skip(j as int));
        } else {
            assert(v@.skip(j as int) =~= Seq::<char>::empty());
        }
    }
    j
}

/// Advances to the end of the current column.
fn token_end_from(v: &Vec<char>, i: usize) -> (j: usize)
    requires
        i <= v@.len(),
    ensures
        i <= j <= v@.len(),
        first_token(v@.skip(i as int)) == v@.subrange(i as int, j as int),
        after_token(v@.skip(i as int)) == v@.skip(j as int),
{
    let n = v.len();
    let mut j = i;
    while j < n && !(v[j] == ' ' || v[j] == '\t')
        invariant
            i <= j <= n,
            n == v@.len(),
            first_token(v@.skip(i as int)) =~= v@.subrange(i as int, j as int) + first_token(
                v@.skip(j as int),
            ),
            after_token(v@.skip(i as int)) == after_token(v@.skip(j as int)),
        decreases n - j,
    {
        proof {
            let s = v@.skip(j as int);
            assert(s.drop_first() =~= v@.skip(j as int + 1));
            assert(seq![s[0]] + first_token(s.drop_first()) == first_token(s));
            assert(v@.subrange(i as int, j as int) + seq![v@[j as int]] =~= v@.subrange(
                i as int,
                j as int + 1,
            ));
            assert(v@.subrange(i as int, j as int + 1) + first_token(v@.skip(j as int + 1))
                =~= v@.subrange(i as int, j as int) + (seq![s[0]] + first_token(s.drop_first())));
        }
        j = j + 1;
    }
    proof {
        let s = v@.skip(j as int);
        if j == n {
            assert(s =~= Seq::<char>::empty());
        }
        assert(first_token(s) =~= Seq::<char>::empty());
        assert(first_token(v@.skip(i as int)) =~= v@.subrange(i as int, j as int));
        assert(after_token(s) == s);
    }
    j
}

/// Finds the first dash within `[i, j)`.
fn find_dash_from(v: &Vec<char>, i: usize, j: usize) -> (r: Option<usize>)
    requires
        i <= j <= v@.len(),
    ensures
        r matches Some(k) ==> i <= k < j && find_dash(v@.subrange(i as int, j as int)) == Some(
            k - i,
        ),
        r is None ==> find_dash(v@.subrange(i as int, j as int)) is None,
{
    let mut k = i;
    while k < j
        invariant
            i <= k <= j <= v@.len(),
            ({
                let whole = find_dash(v@.subrange(i as int, j as int));
                let rest = find_dash(v@.subrange(k as int, j as int));
                match rest {
                    None => whole is None,
                    Some(d) => whole == Some(d + k - i),
                }
            }),
        decreases j - k,
    {
        if v[k] == '-' {
            proof {
                let rest = v@.subrange(k as int, j as int);
                assert(rest[0] == '-');
                assert(find_dash(rest) == Some(0int));
            }
            return Some(k);
        }
        proof {
            let rest = v@.subrange(k as int, j as int);
            assert(rest[0] != '-');
            assert(rest.drop_first() =~= v@.subrange(k as int + 1, j as int));
        }
        k = k + 1;
    }
    proof {
        assert(v@.subrange(k as int, j as int) =~= Seq::<char>::empty());
    }
    None
}

/// Later digits can only grow a hexadecimal number: the value of a prefix
/// never exceeds the value of the whole.
proof fn lemma_hex_value_prefix_le(s: Seq<char>, n: int)
    requires
        0 <= n <= s.len(),
    ensures
        hex_value(s.take(n)) <= hex_value(s),
    decreases s.len() - n,
{
    if n == s.len() {
        assert(s.take(n) =~= s);
    } else {
        lemma_hex_value_prefix_le(s, n + 1);
        assert(s.take(n + 1).drop_last() =~= s.take(n));
        assert(hex_value(s.take(n + 1)) == hex_value(s.take(n)) * 16 + hex_digit_value(
            s.take(n + 1).last(),
        ));
        assert(hex_value(s.take(n)) * 16 >= hex_value(s.take(n))) by (nonlinear_arith);
    }
}

/// Parses the hexadecimal number written in `[i, j)`.
fn parse_hex_range(v: &Vec<char>, i: usize, j: usize) -> (r: Option<usize>)
    requires
        i <= j <= v@.len(),
    ensures
        (r is Some) == is_hex_token(v@.subrange(i as int, j as int)),
        r matches Some(u) ==> u == hex_value(v@.subrange(i as int, j as int)),
{
    let ghost whole = v@.subrange(i as int, j as int);
    if i == j {
        return None;
    }
    let mut u: usize = 0;
    let mut k = i;
    while k < j
        invariant
            i <= k <= j <= v@.len(),
            whole == v@.subrange(i as int, j as int),
            all_hex_digits(v@.subrange(i as int, k as int)),
            u == hex_value(v@.subrange(i as int, k as int)),
        decreases j - k,
    {
        let c = v[k];
        let cu = c as u32;
        let d: u32 = if 48 <= cu && cu <= 57 {
            cu - 48
        } else if 97 <= cu && cu <= 102 {
            cu - 87
        } else if 65 <= cu && cu <= 70 {
            cu - 55
        } else {
            proof {
                assert(!is_hex_digit(whole[k as int - i as int]));
            }
            return None;
        };
        proof {
            assert(is_hex_digit(c) && d == hex_digit_value(c));
        }
        if u > (usize::MAX - (d as usize)) / 16 {
            proof {
                let prefix = v@.subrange(i as int, k as int + 1);
                assert(prefix.drop_last() =~= v@.subrange(i as int, k as int));
                assert(hex_value(prefix) == u * 16 + d);
                assert(u * 16 + d > usize::MAX) by (nonlinear_arith)
                    requires
                        u > (usize::MAX - (d as usize)) / 16,
                        0 <= d,
                ;
                assert(whole.take(k as int + 1 - i as int) =~= prefix);
                lemma_hex_value_prefix_le(whole, k as int + 1 - i as int);
                assert(!is_hex_token(whole));
            }
            return None;
        }
        proof {
            assert(u * 16 + d <= usize::MAX) by (nonlinear_arith)
                requires
                    u <= (usize::MAX - (d as usize)) / 16,
                    0 <= d <= 102,
            ;
            let prefix = v@.subrange(i as int, k as int + 1);
            assert(prefix.drop_last() =~= v@.subrange(i as int, k as int));
            assert(prefix.last() == c);
            assert(all_hex_digits(prefix));
        }
        u = u * 16 + (d as usize);
        k = k + 1;
    }
    proof {
        assert(v@.subrange(i as int, k as int) =~= whole);
        assert(is_hex_token(whole));
    }
    Some(u)
}

/// Parses a permission column of a maps line (e.g. `r--p`): the first
/// three characters name the protection attributes, and a trailing `s`
/// marks a shared mapping.
pub fn parse_procfs_flags(protection: &str) -> (r: (Protection, bool))
    ensures
        r.0 == spec_flags_protection(protection@),
        r.1 == spec_flags_shared(protection@),
{
    let n = protection.unicode_len();
    let read = n > 0 && protection.get_char(0) != '-';
    let write = n > 1 && protection.get_char(1) != '-';
    let execute = n > 2 && protection.get_char(2) != '-';
    let shared = n > 0 && protection.get_char(n - 1) == 's';
    (Protection::from_rwx(read, write, execute), shared)
}

/// Parses one line of a maps listing into a region descriptor.
///
/// A well-formed line starts with two dash-separated hexadecimal addresses,
/// the lower one first, followed by a permission column; everything after
/// that column is ignored. A line that does not follow this shape yields
/// nothing.
pub fn parse_procfs_line(input: &str) -> (r: Option<Region>)
    ensures
        r == spec_parse_line(input@),
        r matches Some(region) ==> region.wf(),
{
    let v = chars_of(input);
    proof {
        assert(v@.skip(0) =~= input@);
    }
    let i1 = skip_ws_from(&v, 0);
    let j1 = token_end_from(&v, i1);
    let i2 = skip_ws_from(&v, j1);
    let j2 = token_end_from(&v, i2);
    let ghost t1 = first_token(skip_ws(input@));
    let ghost t2 = first_token(skip_ws(after_token(skip_ws(input@))));
    proof {
        assert(t1 == v@.subrange(i1 as int, j1 as int));
        assert(t2 == v@.subrange(i2 as int, j2 as int));
    }
    let dash = match find_dash_from(&v, i1, j1) {
        None => {
            return None;
        },
        Some(k) => k,
    };
    proof {
        assert(v@.subrange(i1 as int, dash as int) =~= t1.take(dash as int - i1 as int));
        assert(v@.subrange(dash as int + 1, j1 as int) =~= t1.skip(dash as int + 1 - i1 as int));
    }
    let lower = match parse_hex_range(&v, i1, dash) {
        None => {
            return None;
        },
        Some(u) => u,
    };
    let upper = match parse_hex_range(&v, dash + 1, j1) {
        None => {
            return None;
        },
        Some(u) => u,
    };
    if upper < lower {
        return None;
    }
    if i2 == j2 {
        return None;
    }
    let read = v[i2] != '-';
    let write = j2 - i2 > 1 && v[i2 + 1] != '-';
    let execute = j2 - i2 > 2 && v[i2 + 2] != '-';
    let shared = v[j2 - 1] == 's';
    proof {
        assert(t2[0] == v@[i2 as int]);
        assert(t2.len() > 1 ==> t2[1] == v@[i2 as int + 1]);
        assert(t2.len() > 2 ==> t2[2] == v@[i2 as int + 2]);
        assert(t2.last() == v@[j2 as int - 1]);
    }
    Some(
        Region {
            base: lower,
            reserved: false,
            guarded: false,
            protection: Protection::from_rwx(read, write, execute),
            shared,
            size: upper - lower,
        },
    )
}

} // verus!
