//! Verified character-level text utilities shared by the extraction rules:
//! blank tests, newline stripping, trimming, splitting, digit runs and
//! decimal parsing / formatting.
use vstd::prelude::*;

verus! {

/// Characters the library treats as blank space.
pub open spec fn is_blank_char(c: char) -> bool {
    c == ' ' || c == '\t' || c == '\n' || c == '\r'
}

/// ASCII decimal digit.
pub open spec fn is_digit_char(c: char) -> bool {
    '0' as u32 <= c as u32 && c as u32 <= '9' as u32
}

/// A string is blank when every character is blank space (the empty string is blank).
pub open spec fn spec_is_blank(s: Seq<char>) -> bool {
    forall|i: int| 0 <= i < s.len() ==> is_blank_char(s[i])
}

/// Every character is an ASCII digit.
pub open spec fn spec_all_digits(s: Seq<char>) -> bool {
    forall|i: int| 0 <= i < s.len() ==> is_digit_char(s[i])
}

fn is_blank_char_exec(c: char) -> (r: bool)
    ensures
        r == is_blank_char(c),
{
    c == ' ' || c == '\t' || c == '\n' || c == '\r'
}

fn is_digit_char_exec(c: char) -> (r: bool)
    ensures
        r == is_digit_char(c),
{
    '0' <= c && c <= '9'
}

/// Whether `s` consists of blank space only.
pub fn is_blank(s: &str) -> (r: bool)
    ensures
        r == spec_is_blank(s@),
{
    let n = s.unicode_len();
    let mut i: usize = 0;
    while i < n
        invariant
            0 <= i <= n,
            n == s@.len(),
            forall|j: int| 0 <= j < i ==> is_blank_char(s@[j]),
        decreases n - i,
    {
        let c = s.get_char(i);
        if !is_blank_char_exec(c) {
            return false;
        }
        i = i + 1;
    }
    true
}

/// Whether `s` consists of ASCII digits only.
pub fn all_digits(s: &str) -> (r: bool)
    ensures
        r == spec_all_digits(s@),
{
    let n = s.unicode_len();
    let mut i: usize = 0;
    while i < n
        invariant
            0 <= i <= n,
            n == s@.len(),
            forall|j: int| 0 <= j < i ==> is_digit_char(s@[j]),
        decreases n - i,
    {
        if !is_digit_char_exec(s.get_char(i)) {
            return false;
        }
        i = i + 1;
    }
    true
}

/// `s` with every newline character removed, all else kept in order.
pub open spec fn spec_strip_newlines(s: Seq<char>) -> Seq<char>
    decreases s.len(),
{
    if s.len() == 0 {
        Seq::empty()
    } else if s.last() == '\n' {
        spec_strip_newlines(s.drop_last())
    } else {
        spec_strip_newlines(s.drop_last()).push(s.last())
    }
}

/// Removes every newline character, keeping all other characters in order.
pub fn strip_newlines(s: &str) -> (r: String)
    ensures
        r@ == spec_strip_newlines(s@),
{
    let n = s.unicode_len();
    let mut r = String::new();
    let mut i: usize = 0;
    while i < n
        invariant
            0 <= i <= n,
            n == s@.len(),
            r@ == spec_strip_newlines(s@.take(i as int)),
        decreases n - i,
    {
        let c = s.get_char(i);
        proof {
            assert(s@.take(i + 1).drop_last() =~= s@.take(i as int));
            assert(s@.take(i + 1).last() == s@[i as int]);
        }
        if c != '\n' {
            push_char(&mut r, c);
        }
        i = i + 1;
    }
    proof {
        assert(s@.take(n as int) =~= s@);
    }
    r
}

/// `s` without its leading blank space.
pub open spec fn spec_trim_start(s: Seq<char>) -> Seq<char>
    decreases s.len(),
{
    if s.len() > 0 && is_blank_char(s[0]) {
        spec_trim_start(s.skip(1))
    } else {
        s
    }
}

/// `s` without its trailing blank space.
pub open spec fn spec_trim_end(s: Seq<char>) -> Seq<char>
    decreases s.len(),
{
    if s.len() > 0 && is_blank_char(s.last()) {
        spec_trim_end(s.drop_last())
    } else {
        s
    }
}

/// `s` without leading and trailing blank space.
pub open spec fn spec_trim(s: Seq<char>) -> Seq<char> {
    spec_trim_end(spec_trim_start(s))
}

proof fn lemma_trim_start_skip(s: Seq<char>, i: int)
    requires
        0 <= i <= s.len(),
        forall|j: int| 0 <= j < i ==> is_blank_char(s[j]),
        i < s.len() ==> !is_blank_char(s[i]),
    ensures
        spec_trim_start(s) == s.skip(i),
    decreases i,
{
    if i == 0 {
        assert(s.skip(0) =~= s);
    } else {
        lemma_trim_start_skip(s.skip(1), i - 1);
        assert(s.skip(1).skip(i - 1) =~= s.skip(i));
    }
}

proof fn lemma_trim_end_take(s: Seq<char>, i: int)
    requires
        0 <= i <= s.len(),
        forall|j: int| i <= j < s.len() ==> is_blank_char(s[j]),
        i > 0 ==> !is_blank_char(s[i - 1]),
    ensures
        spec_trim_end(s) == s.take(i),
    decreases s.len() - i,
{
    if i == s.len() {
        assert(s.take(i) =~= s);
    } else {
        lemma_trim_end_take(s.drop_last(), i);
        assert(s.drop_last().take(i) =~= s.take(i));
    }
}

/// Removes leading and trailing blank space (spaces, tabs, newlines, carriage returns).
pub fn trim(s: &str) -> (r: &str)
    ensures
        r@ == spec_trim(s@),
{
    let n = s.unicode_len();
    let mut lo: usize = 0;
    while lo < n && is_blank_char_exec(s.get_char(lo))
        invariant
            0 <= lo <= n,
            n == s@.len(),
            forall|j: int| 0 <= j < lo ==> is_blank_char(s@[j]),
        decreases n - lo,
    {
        lo = lo + 1;
    }
    proof {
        lemma_trim_start_skip(s@, lo as int);
    }
    if lo == n {
        proof {
            assert(s@.skip(lo as int) =~= Seq::<char>::empty());
            assert(spec_trim_end(Seq::<char>::empty()) =~= Seq::<char>::empty());
        }
        return s.substring_char(n, n);
    }
    let mut hi: usize = n;
    while hi > lo && is_blank_char_exec(s.get_char(hi - 1))
        invariant
            lo <= hi <= n,
            n == s@.len(),
            forall|j: int| 0 <= j < lo ==> is_blank_char(s@[j]),
            forall|j: int| hi <= j < n ==> is_blank_char(s@[j]),
            !is_blank_char(s@[lo as int]),
        decreases hi,
    {
        hi = hi - 1;
    }
    let r = s.substring_char(lo, hi);
    proof {
        let trimmed = s@.skip(lo as int);
        lemma_trim_end_take(trimmed, hi - lo);
        assert(trimmed.take(hi - lo) =~= s@.subrange(lo as int, hi as int));
    }
    r
}

/// The prefix of `s` up to (not including) its first space character;
/// the whole of `s` when it has no space. The first token of the split on spaces.
pub open spec fn spec_first_token(s: Seq<char>) -> Seq<char>
    decreases s.len(),
{
    if s.len() == 0 || s[0] == ' ' {
        Seq::empty()
    } else {
        seq![s[0]] + spec_first_token(s.skip(1))
    }
}

proof fn lemma_first_token_take(s: Seq<char>, k: int)
    requires
        0 <= k <= s.len(),
        forall|j: int| 0 <= j < k ==> s[j] != ' ',
        k < s.len() ==> s[k] == ' ',
    ensures
        spec_first_token(s) == s.take(k),
    decreases k,
{
    if k == 0 {
        assert(s.take(0) =~= Seq::<char>::empty());
    } else {
        lemma_first_token_take(s.skip(1), k - 1);
        assert(seq![s[0]] + s.skip(1).take(k - 1) =~= s.take(k));
    }
}

/// The first space-delimited token of `s`.
pub fn first_token(s: &str) -> (r: &str)
    ensures
        r@ == spec_first_token(s@),
{
    let n = s.unicode_len();
    let mut k: usize = 0;
    while k < n && s.get_char(k) != ' '
        invariant
            0 <= k <= n,
            n == s@.len(),
            forall|j: int| 0 <= j < k ==> s@[j] != ' ',
        decreases n - k,
    {
        k = k + 1;
    }
    proof {
        lemma_first_token_take(s@, k as int);
        assert(s@.take(k as int) =~= s@.subrange(0, k as int));
    }
    s.substring_char(0, k)
}

/// A non-negative decimal literal: one or more digits, optionally followed
/// by a point and one or more digits.
pub open spec fn is_decimal_token(s: Seq<char>) -> bool {
    ||| s.len() > 0 && spec_all_digits(s)
    ||| exists|k: int|
        {
            &&& 0 < k < s.len() - 1
            &&& #[trigger] s[k] == '.'
            &&& spec_all_digits(s.take(k))
            &&& spec_all_digits(s.skip(k + 1))
        }
}

/// Decides whether `s` is a non-negative decimal literal (`digits` or `digits.digits`).
pub fn check_decimal_token(s: &str) -> (r: bool)
    ensures
        r == is_decimal_token(s@),
{
    let n = s.unicode_len();
    let mut k: usize = 0;
    while k < n && s.get_char(k) != '.'
        invariant
            0 <= k <= n,
            n == s@.len(),
            forall|j: int| 0 <= j < k ==> s@[j] != '.',
        decreases n - k,
    {
        k = k + 1;
    }
    if k == n {
        // no point anywhere: token must be one or more digits
        assert(forall|j: int| 0 <= j < s@.len() ==> #[trigger] s@[j] != '.');
        let mut i: usize = 0;
        while i < n
            invariant
                0 <= i <= n,
                n == s@.len(),
                forall|j: int| 0 <= j < n ==> #[trigger] s@[j] != '.',
                forall|j: int| 0 <= j < i ==> is_digit_char(s@[j]),
            decreases n - i,
        {
            if !is_digit_char_exec(s.get_char(i)) {
                assert(!spec_all_digits(s@));
                return false;
            }
            i = i + 1;
        }
        return n > 0;
    }
    // k is the first point; a digit is never a point, so no other split index can work
    assert(s@[k as int] == '.');
    assert(!spec_all_digits(s@));
    if k == 0 || k + 1 >= n {
        proof {
            assert forall|k2: int|
                0 < k2 < s@.len() - 1 && #[trigger] s@[k2] == '.' implies !spec_all_digits(
                s@.take(k2),
            ) by {
                assert(s@.take(k2)[k as int] == '.');
            }
        }
        return false;
    }
    let mut i: usize = 0;
    while i < k
        invariant
            0 <= i <= k < n,
            n == s@.len(),
            s@[k as int] == '.',
            forall|j: int| 0 <= j < k ==> s@[j] != '.',
            forall|j: int| 0 <= j < i ==> is_digit_char(s@[j]),
        decreases k - i,
    {
        if !is_digit_char_exec(s.get_char(i)) {
            proof {
                let bad = i as int;
                assert forall|k2: int|
                    0 < k2 < s@.len() - 1 && #[trigger] s@[k2] == '.' implies !spec_all_digits(
                    s@.take(k2),
                ) by {
                    assert(k2 >= k as int);
                    if k2 == k as int {
                        assert(!is_digit_char(s@.take(k2)[bad]));
                    } else {
                        assert(s@.take(k2)[k as int] == '.');
                        assert(!is_digit_char(s@.take(k2)[k as int]));
                    }
                }
            }
            return false;
        }
        i = i + 1;
    }
    let mut i2: usize = k + 1;
    while i2 < n
        invariant
            k < i2 <= n,
            0 < k,
            k + 1 < n,
            n == s@.len(),
            s@[k as int] == '.',
            forall|j: int| 0 <= j < k ==> s@[j] != '.',
            forall|j: int| 0 <= j < k ==> is_digit_char(s@[j]),
            forall|j: int| k < j < i2 ==> is_digit_char(s@[j]),
        decreases n - i2,
    {
        if !is_digit_char_exec(s.get_char(i2)) {
            proof {
                let bad = i2 as int;
                assert forall|k2: int|
                    0 < k2 < s@.len() - 1 && #[trigger] s@[k2] == '.' implies !(spec_all_digits(
                    s@.take(k2),
                ) && spec_all_digits(s@.skip(k2 + 1))) by {
                    if k2 < k as int || k2 > k as int {
                        // another point index would sit among checked digits
                        if k2 > k as int {
                            assert(s@.take(k2)[k as int] == '.');
                            assert(!is_digit_char(s@.take(k2)[k as int]));
                        }
                    } else {
                        assert(!is_digit_char(s@.skip(k2 + 1)[bad - k2 - 1]));
                    }
                }
            }
            return false;
        }
        i2 = i2 + 1;
    }
    proof {
        let kk = k as int;
        assert(spec_all_digits(s@.take(kk))) by {
            assert(forall|j: int|
                0 <= j < kk ==> is_digit_char(#[trigger] s@.take(kk)[j]));
        }
        assert(spec_all_digits(s@.skip(kk + 1))) by {
            assert(forall|j: int|
                0 <= j < s@.len() - kk - 1 ==> is_digit_char(#[trigger] s@.skip(kk + 1)[j]));
        }
        assert(0 < kk < s@.len() - 1 && s@[kk] == '.');
    }
    true
}

/// `s` split at every occurrence of `sep`, separators dropped, segments kept
/// verbatim; always at least one segment (the empty string splits into one
/// empty segment).
pub open spec fn spec_split(s: Seq<char>, sep: char) -> Seq<Seq<char>>
    decreases s.len(),
{
    if s.len() == 0 {
        seq![Seq::empty()]
    } else {
        let rest = spec_split(s.drop_last(), sep);
        if s.last() == sep {
            rest.push(Seq::empty())
        } else {
            rest.drop_last().push(rest.last().push(s.last()))
        }
    }
}

/// Splits `s` at every occurrence of `sep`; segments are kept verbatim.
pub fn split_on(s: &str, sep: char) -> (r: Vec<String>)
    ensures
        r.deep_view() == spec_split(s@, sep),
{
    let n = s.unicode_len();
    let mut r: Vec<String> = Vec::new();
    r.push(String::new());
    let mut i: usize = 0;
    while i < n
        invariant
            0 <= i <= n,
            n == s@.len(),
            r.deep_view() == spec_split(s@.take(i as int), sep),
            r.len() >= 1,
        decreases n - i,
    {
        let c = s.get_char(i);
        proof {
            assert(s@.take(i + 1).drop_last() =~= s@.take(i as int));
            assert(s@.take(i + 1).last() == s@[i as int]);
        }
        if c == sep {
            r.push(String::new());
        } else {
            let last = r.len() - 1;
            let mut seg = r.remove(last);
            push_char(&mut seg, c);
            r.push(seg);
            proof {
                let prev = spec_split(s@.take(i as int), sep);
                assert(r.deep_view() =~= prev.drop_last().push(prev.last().push(c)));
            }
        }
        proof {
            assert(r.deep_view() =~= spec_split(s@.take(i + 1), sep));
        }
        i = i + 1;
    }
    proof {
        assert(s@.take(n as int) =~= s@);
    }
    r
}

/// The segments joined in order with `sep` between neighbours.
pub open spec fn spec_join(parts: Seq<Seq<char>>, sep: char) -> Seq<char>
    decreases parts.len(),
{
    if parts.len() == 0 {
        Seq::empty()
    } else if parts.len() == 1 {
        parts[0]
    } else {
        spec_join(parts.drop_last(), sep).push(sep) + parts.last()
    }
}

/// Joins the first `n` segments in order, writing `sep` between neighbours.
pub fn join_prefix(parts: &Vec<String>, n: usize, sep: char) -> (r: String)
    requires
        n <= parts.len(),
    ensures
        r@ == spec_join(parts.deep_view().take(n as int), sep),
{
    let mut r = String::new();
    let mut i: usize = 0;
    while i < n
        invariant
            0 <= i <= n,
            n <= parts.len(),
            r@ == spec_join(parts.deep_view().take(i as int), sep),
        decreases n - i,
    {
        if i > 0 {
            push_char(&mut r, sep);
        }
        let part: &String = &parts[i];
        r.append(part.as_str());
        proof {
            let dv = parts.deep_view();
            assert(dv.take(i + 1).drop_last() =~= dv.take(i as int));
            assert(dv.take(i + 1).last() == dv[i as int]);
            if i == 0 {
                assert(dv.take(1) =~= seq![dv[0]]);
                assert(spec_join(dv.take(1), sep) == dv[0]);
                assert(r@ =~= dv[0]);
            }
        }
        i = i + 1;
    }
    r
}

/// Joins the segments in order, writing `sep` between neighbours.
pub fn join_with(parts: &Vec<String>, sep: char) -> (r: String)
    ensures
        r@ == spec_join(parts.deep_view(), sep),
{
    let n = parts.len();
    let r = join_prefix(parts, n, sep);
    proof {
        assert(parts.deep_view().take(n as int) =~= parts.deep_view());
    }
    r
}

/// The maximal runs of consecutive ASCII digits in `s`, in order of occurrence.
pub open spec fn spec_digit_runs(s: Seq<char>) -> Seq<Seq<char>>
    decreases s.len(),
{
    if s.len() == 0 {
        Seq::empty()
    } else {
        let rest = spec_digit_runs(s.drop_last());
        if !is_digit_char(s.last()) {
            rest
        } else if s.len() >= 2 && is_digit_char(s[s.len() - 2]) {
            rest.drop_last().push(rest.last().push(s.last()))
        } else {
            rest.push(seq![s.last()])
        }
    }
}

/// The maximal digit runs of `s`, in order.
pub fn digit_runs(s: &str) -> (r: Vec<String>)
    ensures
        r.deep_view() == spec_digit_runs(s@),
{
    let n = s.unicode_len();
    let mut r: Vec<String> = Vec::new();
    let mut prev_digit = false;
    let mut i: usize = 0;
    while i < n
        invariant
            0 <= i <= n,
            n == s@.len(),
            r.deep_view() == spec_digit_runs(s@.take(i as int)),
            prev_digit == (i > 0 && is_digit_char(s@[i - 1])),
            prev_digit ==> r.len() >= 1,
        decreases n - i,
    {
        let c = s.get_char(i);
        proof {
            assert(s@.take(i + 1).drop_last() =~= s@.take(i as int));
            assert(s@.take(i + 1).last() == s@[i as int]);
            if i > 0 {
                assert(s@.take(i + 1)[i - 1] == s@[i - 1]);
            }
        }
        if is_digit_char_exec(c) {
            if prev_digit {
                let last = r.len() - 1;
                let mut run = r.remove(last);
                push_char(&mut run, c);
                r.push(run);
                proof {
                    let prev = spec_digit_runs(s@.take(i as int));
                    assert(r.deep_view() =~= prev.drop_last().push(prev.last().push(c)));
                }
            } else {
                let mut run = String::new();
                push_char(&mut run, c);
                r.push(run);
                proof {
                    let prev = spec_digit_runs(s@.take(i as int));
                    assert(r.deep_view() =~= prev.push(seq![c]));
                }
            }
            prev_digit = true;
        } else {
            prev_digit = false;
        }
        proof {
            assert(r.deep_view() =~= spec_digit_runs(s@.take(i + 1)));
        }
        i = i + 1;
    }
    proof {
        assert(s@.take(n as int) =~= s@);
    }
    r
}

/// The first index at or after `i` holding a non-digit, or the length of `s`.
pub open spec fn spec_run_end(s: Seq<char>, i: int) -> int
    decreases s.len() - i,
{
    if i < 0 || i >= s.len() {
        s.len() as int
    } else if !is_digit_char(s[i]) {
        i
    } else {
        spec_run_end(s, i + 1)
    }
}

pub proof fn lemma_run_end_bounds(s: Seq<char>, i: int)
    requires
        0 <= i <= s.len(),
    ensures
        i <= spec_run_end(s, i) <= s.len(),
        forall|j: int| i <= j < spec_run_end(s, i) ==> is_digit_char(s[j]),
        spec_run_end(s, i) < s.len() ==> !is_digit_char(s[spec_run_end(s, i)]),
    decreases s.len() - i,
{
    if i < s.len() && is_digit_char(s[i]) {
        lemma_run_end_bounds(s, i + 1);
    }
}

/// The digit runs of `s` that are enclosed between two slashes, found by a
/// left-to-right scan that resumes after each closing slash, so matches
/// never overlap — the scan a search for the pattern `/(digits)/` makes.
pub open spec fn spec_slash_runs(s: Seq<char>) -> Seq<Seq<char>>
    decreases s.len(),
    via spec_slash_runs_decreases
{
    if s.len() < 3 {
        Seq::empty()
    } else if s[0] == '/' && is_digit_char(s[1]) {
        let k = spec_run_end(s, 1);
        if k < s.len() && s[k] == '/' {
            seq![s.subrange(1, k)] + spec_slash_runs(s.skip(k + 1))
        } else {
            spec_slash_runs(s.skip(1))
        }
    } else {
        spec_slash_runs(s.skip(1))
    }
}

#[via_fn]
proof fn spec_slash_runs_decreases(s: Seq<char>) {
    if s.len() >= 3 {
        lemma_run_end_bounds(s, 1);
    }
}

/// Scans `s` for digit runs enclosed in slashes, non-overlapping, in order.
pub fn slash_runs(s: &str) -> (r: Vec<String>)
    ensures
        r.deep_view() == spec_slash_runs(s@),
{
    let n = s.unicode_len();
    let mut r: Vec<String> = Vec::new();
    let mut i: usize = 0;
    proof {
        assert(s@.skip(0) =~= s@);
        assert(r.deep_view() + spec_slash_runs(s@) =~= spec_slash_runs(s@));
    }
    while i < n
        invariant
            0 <= i <= n,
            n == s@.len(),
            r.deep_view() + spec_slash_runs(s@.skip(i as int)) == spec_slash_runs(s@),
        decreases n - i,
    {
        let ghost tail = s@.skip(i as int);
        if s.get_char(i) == '/' && n > 2 && i < n - 2 && is_digit_char_exec(s.get_char(i + 1)) {
            // find the end of the digit run that starts at i + 1
            let mut k: usize = i + 1;
            while k < n && is_digit_char_exec(s.get_char(k))
                invariant
                    i + 1 <= k <= n,
                    n == s@.len(),
                    forall|j: int| i + 1 <= j < k ==> is_digit_char(s@[j]),
                decreases n - k,
            {
                k = k + 1;
            }
            proof {
                assert(tail[0] == '/');
                assert(tail[1] == s@[i + 1]);
                lemma_run_end_bounds(tail, 1);
                assert(spec_run_end(tail, 1) == k - i) by {
                    let ke = spec_run_end(tail, 1);
                    assert(forall|j: int|
                        1 <= j < ke ==> is_digit_char(#[trigger] tail[j]));
                    assert(forall|j: int|
                        i + 1 <= j < k ==> is_digit_char(#[trigger] s@[j]));
                    if ke < k - i {
                        assert(tail[ke] == s@[i + ke]);
                        assert(is_digit_char(s@[i + ke]));
                    }
                    if ke > k - i {
                        if k < n {
                            assert(tail[k - i] == s@[k as int]);
                            assert(is_digit_char(tail[k - i]));
                        }
                    }
                }
            }
            if k < n && s.get_char(k) == '/' {
                let run = String::from_str(s.substring_char(i + 1, k));
                r.push(run);
                proof {
                    assert(tail[k - i] == '/');
                    assert(run@ =~= tail.subrange(1, k - i));
                    assert(tail.skip(k - i + 1) =~= s@.skip(k + 1));
                    assert(spec_slash_runs(tail) == seq![run@] + spec_slash_runs(s@.skip(k + 1)));
                    assert(r.deep_view() + spec_slash_runs(s@.skip(k + 1)) =~= spec_slash_runs(
                        s@,
                    ));
                }
                i = k + 1;
            } else {
                proof {
                    assert(tail.skip(1) =~= s@.skip(i + 1));
                    if k - i < tail.len() {
                        assert(tail[k - i] == s@[k as int]);
                        assert(tail[k - i] != '/');
                    }
                    assert(spec_slash_runs(tail) == spec_slash_runs(s@.skip(i + 1)));
                }
                i = i + 1;
            }
        } else {
            proof {
                assert(tail.skip(1) =~= s@.skip(i + 1));
                if tail.len() >= 3 {
                    assert(tail[0] == s@[i as int]);
                    assert(tail[1] == s@[i + 1]);
                    if tail[0] == '/' && is_digit_char(tail[1]) {
                        // the guard failed only because i + 2 >= n, so the run
                        // cannot be closed by a slash inside the string
                        assert(i + 2 >= n);
                        assert(false);
                    }
                }
                assert(spec_slash_runs(tail) == spec_slash_runs(s@.skip(i + 1)));
            }
            i = i + 1;
        }
    }
    proof {
        assert(s@.skip(n as int) =~= Seq::<char>::empty());
        assert(r.deep_view() =~= spec_slash_runs(s@));
    }
    r
}

/// The numeric value of a digit string (most significant first); 0 for the
/// empty string.
pub open spec fn spec_digits_value(s: Seq<char>) -> int
    decreases s.len(),
{
    if s.len() == 0 {
        0
    } else {
        spec_digits_value(s.drop_last()) * 10 + (s.last() as u32 - '0' as u32)
    }
}

pub proof fn lemma_digits_value_nonneg(s: Seq<char>)
    requires
        spec_all_digits(s),
    ensures
        spec_digits_value(s) >= 0,
    decreases s.len(),
{
    if s.len() > 0 {
        assert(spec_all_digits(s.drop_last())) by {
            assert(forall|j: int|
                0 <= j < s.len() - 1 ==> is_digit_char(#[trigger] s.drop_last()[j]));
        }
        lemma_digits_value_nonneg(s.drop_last());
    }
}

/// Parses a digit string, rejecting values above `cap`.
/// Returns the value when it is at most `cap`, and `None` otherwise.
pub fn parse_digits_up_to(s: &str, cap: u64) -> (r: Option<u64>)
    requires
        spec_all_digits(s@),
    ensures
        match r {
            Some(v) => v == spec_digits_value(s@) && v <= cap,
            None => spec_digits_value(s@) > cap,
        },
{
    let n = s.unicode_len();
    let mut acc: u64 = 0;
    let mut over = false;
    let mut i: usize = 0;
    proof {
        lemma_digits_value_nonneg(s@);
    }
    while i < n
        invariant
            0 <= i <= n,
            n == s@.len(),
            spec_all_digits(s@),
            !over ==> acc == spec_digits_value(s@.take(i as int)) && acc <= cap,
            over ==> spec_digits_value(s@.take(i as int)) > cap,
        decreases n - i,
    {
        let c = s.get_char(i);
        assert(is_digit_char(c));
        let d: u64 = (c as u32 - 48) as u64;
        proof {
            assert(s@.take(i + 1).drop_last() =~= s@.take(i as int));
            assert(s@.take(i + 1).last() == s@[i as int]);
            assert(spec_all_digits(s@.take(i as int))) by {
                assert(forall|j: int|
                    0 <= j < i ==> is_digit_char(#[trigger] s@.take(i as int)[j]));
            }
            lemma_digits_value_nonneg(s@.take(i as int));
        }
        if over {
            proof {
                let prev = spec_digits_value(s@.take(i as int));
                assert(spec_digits_value(s@.take(i + 1)) == prev * 10 + d);
                assert(prev * 10 >= (cap + 1) * 10) by (nonlinear_arith)
                    requires prev >= cap + 1;
            }
        } else {
            // cap <= u64::MAX, acc <= cap, so acc * 10 + d fits in u128
            let wide: u128 = (acc as u128) * 10 + (d as u128);
            if wide > cap as u128 {
                over = true;
                proof {
                    assert(spec_digits_value(s@.take(i + 1)) == acc * 10 + d);
                }
            } else {
                acc = wide as u64;
                proof {
                    assert(spec_digits_value(s@.take(i + 1)) == wide);
                }
            }
        }
        i = i + 1;
    }
    proof {
        assert(s@.take(n as int) =~= s@);
    }
    if over {
        None
    } else {
        Some(acc)
    }
}

/// The decimal digits of `n` (empty for 0); helper for `spec_decimal_string`.
pub open spec fn spec_dec_digits(n: int) -> Seq<char>
    decreases n,
{
    if n <= 0 {
        Seq::empty()
    } else {
        spec_dec_digits(n / 10).push(spec_digit_char(n % 10))
    }
}

/// The character for one digit value.
pub open spec fn spec_digit_char(d: int) -> char {
    if d == 0 {
        '0'
    } else if d == 1 {
        '1'
    } else if d == 2 {
        '2'
    } else if d == 3 {
        '3'
    } else if d == 4 {
        '4'
    } else if d == 5 {
        '5'
    } else if d == 6 {
        '6'
    } else if d == 7 {
        '7'
    } else if d == 8 {
        '8'
    } else {
        '9'
    }
}

/// The decimal rendering of an integer, with a leading minus sign when negative.
pub open spec fn spec_decimal_string(n: int) -> Seq<char> {
    if n == 0 {
        seq!['0']
    } else if n < 0 {
        seq!['-'] + spec_dec_digits(-n)
    } else {
        spec_dec_digits(n)
    }
}

fn digit_char_exec(d: u64) -> (r: char)
    requires
        d < 10,
    ensures
        r == spec_digit_char(d as int),
{
    if d == 0 {
        '0'
    } else if d == 1 {
        '1'
    } else if d == 2 {
        '2'
    } else if d == 3 {
        '3'
    } else if d == 4 {
        '4'
    } else if d == 5 {
        '5'
    } else if d == 6 {
        '6'
    } else if d == 7 {
        '7'
    } else if d == 8 {
        '8'
    } else {
        '9'
    }
}

fn dec_digits_u64(n: u64) -> (r: String)
    ensures
        r@ == spec_dec_digits(n as int),
    decreases n,
{
    if n == 0 {
        String::new()
    } else {
        let mut s = dec_digits_u64(n / 10);
        push_char(&mut s, digit_char_exec(n % 10));
        s
    }
}

/// Renders a signed integer in decimal, as `i64::to_string` of std would.
pub fn decimal_string_i64(n: i64) -> (r: String)
    ensures
        r@ == spec_decimal_string(n as int),
{
    if n == 0 {
        let mut s = String::new();
        push_char(&mut s, '0');
        s
    } else if n < 0 {
        let mut s = String::new();
        push_char(&mut s, '-');
        let mag: u64 = if n == i64::MIN {
            9223372036854775808u64
        } else {
            (-n) as u64
        };
        let digits = dec_digits_u64(mag);
        s.append(digits.as_str());
        proof {
            assert(seq!['-'] + spec_dec_digits(mag as int) =~= spec_decimal_string(n as int));
        }
        s
    } else {
        dec_digits_u64(n as u64)
    }
}

/// Relies on `String::push` of std: appends exactly one character at the end.
#[verifier::external_body]
pub fn push_char(s: &mut String, c: char)
    ensures
        final(s)@ == old(s)@.push(c),
{
    s.push(c);
}

} // verus!
