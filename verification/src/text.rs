//! Character-level text helpers: Unicode white space and trimming, line
//! splitting with the semantics of `str::lines`, prefixes, and decimal
//! rendering of integers.
use vstd::prelude::*;
use vstd::string::StringExecFns;

verus! {

/// The file the task list is exported to and imported from.
pub const EXPORT_PATH: &'static str = "pomodoro-todo-export.txt";

// ---------------------------------------------------------------------------
// Specifications
// ---------------------------------------------------------------------------

/// The Unicode `White_Space` property, which `char::is_whitespace` tests.
pub open spec fn is_white_space(c: char) -> bool {
    let u = c as u32;
    ||| 0x9 <= u <= 0xd
    ||| u == 0x20
    ||| u == 0x85
    ||| u == 0xa0
    ||| u == 0x1680
    ||| 0x2000 <= u <= 0x200a
    ||| u == 0x2028
    ||| u == 0x2029
    ||| u == 0x202f
    ||| u == 0x205f
    ||| u == 0x3000
}

/// `s` without its leading white space.
pub open spec fn trim_start(s: Seq<char>) -> Seq<char>
    decreases s.len(),
{
    if s.len() > 0 && is_white_space(s[0]) {
        trim_start(s.drop_first())
    } else {
        s
    }
}

/// `s` without its trailing white space.
pub open spec fn trim_end(s: Seq<char>) -> Seq<char>
    decreases s.len(),
{
    if s.len() > 0 && is_white_space(s.last()) {
        trim_end(s.drop_last())
    } else {
        s
    }
}

/// `s` without leading and trailing white space, as `str::trim` returns it.
pub open spec fn trim(s: Seq<char>) -> Seq<char> {
    trim_end(trim_start(s))
}

/// `trim_start` drops a run of white space from the front and stops at the
/// first other character: `trim_start(s)` is `s` from that index on.
pub proof fn lemma_trim_start_shape(s: Seq<char>) -> (a: int)
    ensures
        0 <= a <= s.len(),
        trim_start(s) == s.subrange(a, s.len() as int),
        forall|i: int| 0 <= i < a ==> is_white_space(#[trigger] s[i]),
        a < s.len() ==> !is_white_space(s[a]),
    decreases s.len(),
{
    if s.len() > 0 && is_white_space(s[0]) {
        let r = s.drop_first();
        let a0 = lemma_trim_start_shape(r);
        assert(r.subrange(a0, r.len() as int) =~= s.subrange(a0 + 1, s.len() as int));
        assert forall|i: int| 0 <= i < a0 + 1 implies is_white_space(#[trigger] s[i]) by {
            if i > 0 {
                assert(s[i] == r[i - 1]);
            }
        }
        if a0 + 1 < s.len() {
            assert(s[a0 + 1] == r[a0]);
        }
        a0 + 1
    } else {
        assert(s.subrange(0, s.len() as int) =~= s);
        0
    }
}

/// `trim_end` drops a run of white space from the back and stops at the
/// last other character: `trim_end(s)` is `s` up to that index.
pub proof fn lemma_trim_end_shape(s: Seq<char>) -> (b: int)
    ensures
        0 <= b <= s.len(),
        trim_end(s) == s.subrange(0, b),
        forall|i: int| b <= i < s.len() ==> is_white_space(#[trigger] s[i]),
        b > 0 ==> !is_white_space(s[b - 1]),
    decreases s.len(),
{
    if s.len() > 0 && is_white_space(s.last()) {
        let r = s.drop_last();
        let b0 = lemma_trim_end_shape(r);
        assert(r.subrange(0, b0) =~= s.subrange(0, b0));
        assert forall|i: int| b0 <= i < s.len() implies is_white_space(#[trigger] s[i]) by {
            if i < s.len() - 1 {
                assert(s[i] == r[i]);
            }
        }
        if b0 > 0 {
            assert(s[b0 - 1] == r[b0 - 1]);
        }
        b0
    } else {
        assert(s.subrange(0, s.len() as int) =~= s);
        s.len() as int
    }
}

/// `line` with one trailing carriage return removed, if it has one.
pub open spec fn strip_cr(line: Seq<char>) -> Seq<char> {
    if line.len() > 0 && line.last() == '\r' {
        line.drop_last()
    } else {
        line
    }
}

/// Reads `s` from the left: the lines that a line feed has already ended
/// (each without its `\n` and without a `\r` just before it), and the
/// characters of the line that is still open.
pub open spec fn lines_acc(s: Seq<char>) -> (Seq<Seq<char>>, Seq<char>)
    decreases s.len(),
{
    if s.len() == 0 {
        (Seq::empty(), Seq::empty())
    } else {
        let (done, open) = lines_acc(s.drop_last());
        if s.last() == '\n' {
            (done.push(strip_cr(open)), Seq::empty())
        } else {
            (done, open.push(s.last()))
        }
    }
}

/// The lines of `s` as `str::lines` yields them: split at `\n`, a `\r` just
/// before a `\n` dropped, and a last line without `\n` kept when not empty.
pub open spec fn lines(s: Seq<char>) -> Seq<Seq<char>> {
    let (done, open) = lines_acc(s);
    if open.len() == 0 {
        done
    } else {
        done.push(open)
    }
}

/// `s` without its last character, if it has one.
pub open spec fn drop_last_char(s: Seq<char>) -> Seq<char> {
    if s.len() > 0 {
        s.drop_last()
    } else {
        s
    }
}

/// `s` begins with `p`.
pub open spec fn has_prefix(s: Seq<char>, p: Seq<char>) -> bool {
    p.len() <= s.len() && s.subrange(0, p.len() as int) == p
}

/// The character of the decimal digit `d`.
pub open spec fn digit_char(d: int) -> char {
    if d == 0 {
        '0'
    } else if d == 1 {
        '1'
    } else if d == 2 {
        '2'
    } else if d == 3 {
        '3'
    } else if d == 4 {
        '4'
    } else if d == 5 {
        '5'
    } else if d == 6 {
        '6'
    } else if d == 7 {
        '7'
    } else if d == 8 {
        '8'
    } else {
        '9'
    }
}

/// The decimal representation of `n`, without leading zeros (`format!("{}", n)`).
pub open spec fn decimal(n: nat) -> Seq<char>
    decreases n,
{
    if n < 10 {
        seq![digit_char(n as int)]
    } else {
        decimal(n / 10).push(digit_char((n % 10) as int))
    }
}

/// The decimal representation of `n`, padded with zeros to at least two
/// digits (`format!("{:02}", n)`).
pub open spec fn decimal2(n: nat) -> Seq<char> {
    if n < 10 {
        seq!['0', digit_char(n as int)]
    } else {
        decimal(n)
    }
}

// ---------------------------------------------------------------------------
// Lemmas
// ---------------------------------------------------------------------------

/// A text without line feed leaves one open line and no finished line.
pub proof fn lemma_lines_acc_no_newline(s: Seq<char>)
    requires
        !s.contains('\n'),
    ensures
        lines_acc(s) == (Seq::<Seq<char>>::empty(), s),
    decreases s.len(),
{
    if s.len() > 0 {
        assert(!s.drop_last().contains('\n')) by {
            if s.drop_last().contains('\n') {
                let k = choose|k: int| 0 <= k < s.drop_last().len() && s.drop_last()[k] == '\n';
                assert(s[k] == '\n');
            }
        }
        lemma_lines_acc_no_newline(s.drop_last());
        assert(s[s.len() - 1] == s.last());
        assert(s.drop_last().push(s.last()) =~= s);
    }
}

/// Once no line is open, the lines of what follows are appended.
pub proof fn lemma_lines_acc_append(a: Seq<char>, b: Seq<char>)
    requires
        lines_acc(a).1.len() == 0,
    ensures
        lines_acc(a + b) == (lines_acc(a).0 + lines_acc(b).0, lines_acc(b).1),
    decreases b.len(),
{
    if b.len() == 0 {
        assert(a + b =~= a);
        assert(lines_acc(a).0 + Seq::<Seq<char>>::empty() =~= lines_acc(a).0);
        assert(lines_acc(a).1 =~= Seq::<char>::empty());
    } else {
        lemma_lines_acc_append(a, b.drop_last());
        assert((a + b).drop_last() =~= a + b.drop_last());
        assert((a + b).last() == b.last());
        let (d1, _o1) = lines_acc(a);
        let (d2, o2) = lines_acc(b.drop_last());
        if b.last() == '\n' {
            assert((d1 + d2).push(strip_cr(o2)) =~= d1 + d2.push(strip_cr(o2)));
        }
    }
}

/// A line without line feed that does not end in a carriage return, followed
/// by a line feed, is read as exactly that one line.
pub proof fn lemma_lines_acc_single(l: Seq<char>)
    requires
        !l.contains('\n'),
        l.len() == 0 || l.last() != '\r',
    ensures
        lines_acc(l.push('\n')) == (seq![l], Seq::<char>::empty()),
{
    lemma_lines_acc_no_newline(l);
    assert(l.push('\n').drop_last() =~= l);
    assert(Seq::<Seq<char>>::empty().push(l) =~= seq![l]);
}

/// What a prefix test sees of a concatenation.
pub proof fn lemma_has_prefix_concat(p: Seq<char>, t: Seq<char>)
    ensures
        has_prefix(p + t, p),
        (p + t).subrange(p.len() as int, (p + t).len() as int) == t,
{
    assert((p + t).subrange(0, p.len() as int) =~= p);
    assert((p + t).subrange(p.len() as int, (p + t).len() as int) =~= t);
}

// ---------------------------------------------------------------------------
// Executable helpers
// ---------------------------------------------------------------------------

/// Appends one character to a string (`String::push`).
#[verifier::external_body]
pub(crate) fn push_char(s: &mut String, c: char)
    ensures
        final(s)@ == old(s)@.push(c),
{
    s.push(c)
}

/// Removes the last character of a string, if it has one (`String::pop`).
#[verifier::external_body]
pub(crate) fn pop_char(s: &mut String)
    ensures
        final(s)@ == drop_last_char(old(s)@),
{
    s.pop();
}

/// The characters of `s`, in order.
pub fn chars_of(s: &str) -> (v: Vec<char>)
    ensures
        v@ == s@,
{
    let mut v: Vec<char> = Vec::new();
    for c in it: s.chars()
        invariant
            v@ == it.seq().take(it.index() as int),
    {
        v.push(c);
    }
    v
}

/// Whether `c` is Unicode white space.
pub fn char_is_white_space(c: char) -> (b: bool)
    ensures
        b == is_white_space(c),
{
    let u = c as u32;
    (0x9 <= u && u <= 0xd) || u == 0x20 || u == 0x85 || u == 0xa0 || u == 0x1680 || (0x2000 <= u
        && u <= 0x200a) || u == 0x2028 || u == 0x2029 || u == 0x202f || u == 0x205f || u == 0x3000
}

/// The string made of `v[lo..hi]`.
pub fn string_of_range(v: &Vec<char>, lo: usize, hi: usize) -> (s: String)
    requires
        lo <= hi <= v@.len(),
    ensures
        s@ == v@.subrange(lo as int, hi as int),
{
    let mut s = String::new();
    let mut i = lo;
    while i < hi
        invariant
            lo <= i <= hi <= v@.len(),
            s@ == v@.subrange(lo as int, i as int),
        decreases hi - i,
    {
        push_char(&mut s, v[i]);
        assert(v@.subrange(lo as int, i + 1) =~= v@.subrange(lo as int, i as int).push(v@[i as int]));
        i += 1;
    }
    s
}

/// The bounds of `v[lo..hi]` with white space trimmed from both ends.
pub fn trim_range(v: &Vec<char>, lo: usize, hi: usize) -> (r: (usize, usize))
    requires
        lo <= hi <= v@.len(),
    ensures
        lo <= r.0 <= r.1 <= hi,
        v@.subrange(r.0 as int, r.1 as int) == trim(v@.subrange(lo as int, hi as int)),
{
    let ghost s = v@.subrange(lo as int, hi as int);
    let mut a = lo;
    while a < hi && char_is_white_space(v[a])
        invariant
            lo <= a <= hi <= v@.len(),
            s == v@.subrange(lo as int, hi as int),
            trim_start(s) == trim_start(v@.subrange(a as int, hi as int)),
        decreases hi - a,
    {
        assert(v@.subrange(a as int, hi as int).drop_first() =~= v@.subrange(a + 1, hi as int));
        a += 1;
    }
    assert(trim_start(v@.subrange(a as int, hi as int)) == v@.subrange(a as int, hi as int)) by {
        if a < hi {
            assert(v@.subrange(a as int, hi as int)[0] == v@[a as int]);
        }
    }
    let mut b = hi;
    while b > a && char_is_white_space(v[b - 1])
        invariant
            lo <= a <= b <= hi <= v@.len(),
            trim(s) == trim_end(v@.subrange(a as int, b as int)),
        decreases b - a,
    {
        assert(v@.subrange(a as int, b as int).drop_last() =~= v@.subrange(a as int, b - 1));
        assert(v@.subrange(a as int, b as int).last() == v@[b - 1]);
        b -= 1;
    }
    assert(trim_end(v@.subrange(a as int, b as int)) == v@.subrange(a as int, b as int)) by {
        if b > a {
            assert(v@.subrange(a as int, b as int).last() == v@[b - 1]);
        }
    }
    (a, b)
}

/// The string `s` with leading and trailing white space removed (`str::trim`).
pub fn trimmed(s: &str) -> (r: String)
    ensures
        r@ == trim(s@),
{
    let v = chars_of(s);
    let (a, b) = trim_range(&v, 0, v.len());
    assert(v@.subrange(0, v@.len() as int) =~= v@);
    string_of_range(&v, a, b)
}

/// Whether `v[lo..hi]` begins with the characters of `tag`.
pub fn range_has_prefix(v: &Vec<char>, lo: usize, hi: usize, tag: &Vec<char>) -> (b: bool)
    requires
        lo <= hi <= v@.len(),
    ensures
        b == has_prefix(v@.subrange(lo as int, hi as int), tag@),
{
    if tag.len() > hi - lo {
        return false;
    }
    let mut k: usize = 0;
    while k < tag.len()
        invariant
            lo <= hi <= v@.len(),
            tag@.len() <= hi - lo,
            k <= tag@.len(),
            forall|j: int| 0 <= j < k ==> v@[lo + j] == tag@[j],
        decreases tag@.len() - k,
    {
        if v[lo + k] != tag[k] {
            assert(v@.subrange(lo as int, hi as int).subrange(0, tag@.len() as int)[k as int]
                != tag@[k as int]);
            return false;
        }
        k += 1;
    }
    assert(v@.subrange(lo as int, hi as int).subrange(0, tag@.len() as int) =~= tag@);
    true
}

/// Appends the decimal representation of `n` to `s`.
pub fn push_decimal(s: &mut String, n: u64)
    ensures
        final(s)@ == old(s)@ + decimal(n as nat),
    decreases n,
{
    if n >= 10 {
        push_decimal(s, n / 10);
    }
    let d = n % 10;
    let c = if d == 0 {
        '0'
    } else if d == 1 {
        '1'
    } else if d == 2 {
        '2'
    } else if d == 3 {
        '3'
    } else if d == 4 {
        '4'
    } else if d == 5 {
        '5'
    } else if d == 6 {
        '6'
    } else if d == 7 {
        '7'
    } else if d == 8 {
        '8'
    } else {
        '9'
    };
    push_char(s, c);
    proof {
        if n >= 10 {
            assert(old(s)@ + decimal(n as nat) =~= (old(s)@ + decimal((n / 10) as nat)).push(c));
        } else {
            assert(old(s)@ + decimal(n as nat) =~= old(s)@.push(c));
        }
    }
}

/// Appends the decimal representation of `n`, padded with zeros to two digits.
pub fn push_decimal2(s: &mut String, n: u64)
    ensures
        final(s)@ == old(s)@ + decimal2(n as nat),
{
    if n < 10 {
        push_char(s, '0');
    }
    push_decimal(s, n);
    proof {
        if n < 10 {
            assert(old(s)@ + decimal2(n as nat) =~= old(s)@.push('0') + decimal(n as nat));
        }
    }
}

/// An owned copy of `t`.
pub fn owned(t: &str) -> (s: String)
    ensures
        s@ == t@,
{
    let mut s = String::new();
    s.append(t);
    s
}

/// Appends a string slice to `s`.
pub fn push_str(s: &mut String, t: &str)
    ensures
        final(s)@ == old(s)@ + t@,
{
    s.append(t);
}

} // verus!
