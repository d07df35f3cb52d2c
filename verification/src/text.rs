use vstd::prelude::*;

verus! {

// ---------------------------------------------------------------------------
// Characters
// ---------------------------------------------------------------------------

/// Unicode `White_Space`: the characters that `char::is_whitespace` accepts.
pub open spec fn is_ws(c: char) -> bool {
    let u = c as u32;
    ||| 0x9 <= u <= 0xD
    ||| u == 0x20
    ||| u == 0x85
    ||| u == 0xA0
    ||| u == 0x1680
    ||| 0x2000 <= u <= 0x200A
    ||| u == 0x2028
    ||| u == 0x2029
    ||| u == 0x202F
    ||| u == 0x205F
    ||| u == 0x3000
}

/// Unicode general category `Cc`: the characters that `char::is_control` accepts.
pub open spec fn is_ctrl(c: char) -> bool {
    let u = c as u32;
    u <= 0x1F || (0x7F <= u <= 0x9F)
}

pub fn char_is_whitespace(c: char) -> (r: bool)
    ensures
        r == is_ws(c),
{
    let u = c as u32;
    (0x9 <= u && u <= 0xD) || u == 0x20 || u == 0x85 || u == 0xA0 || u == 0x1680 || (0x2000 <= u
        && u <= 0x200A) || u == 0x2028 || u == 0x2029 || u == 0x202F || u == 0x205F || u == 0x3000
}

pub fn char_is_control(c: char) -> (r: bool)
    ensures
        r == is_ctrl(c),
{
    let u = c as u32;
    u <= 0x1F || (0x7F <= u && u <= 0x9F)
}

// ---------------------------------------------------------------------------
// Strings and character vectors
// ---------------------------------------------------------------------------

/// Appends one character to a string (`String::push`).
#[verifier::external_body]
pub(crate) fn push_char(s: &mut String, c: char)
    ensures
        final(s)@ == old(s)@.push(c),
{
    s.push(c);
}

/// Appends a string slice to a string.
pub(crate) fn push_str(s: &mut String, t: &str)
    ensures
        final(s)@ == old(s)@ + t@,
{
    s.append(t);
}

/// The characters of a string, in order.
pub fn chars_of(s: &str) -> (v: Vec<char>)
    ensures
        v@ == s@,
{
    broadcast use vstd::string::group_string_axioms;

    let mut v: Vec<char> = Vec::new();
    for c in it: s.chars()
        invariant
            it.seq() == s@,
            v@ == it.seq().take(it.index() as int),
    {
        v.push(c);
    }
    v
}

/// Appends the characters `v[from..to]` to `s`.
pub fn push_chars(s: &mut String, v: &Vec<char>, from: usize, to: usize)
    requires
        from <= to <= v@.len(),
    ensures
        final(s)@ == old(s)@ + v@.subrange(from as int, to as int),
{
    let mut i = from;
    while i < to
        invariant
            from <= i <= to <= v@.len(),
            s@ == old(s)@ + v@.subrange(from as int, i as int),
        decreases to - i,
    {
        push_char(s, v[i]);
        assert(v@.subrange(from as int, i + 1) =~= v@.subrange(from as int, i as int).push(v@[i as int]));
        i = i + 1;
    }
}

/// A string holding the characters `v[from..to]`.
pub fn string_of(v: &Vec<char>, from: usize, to: usize) -> (s: String)
    requires
        from <= to <= v@.len(),
    ensures
        s@ == v@.subrange(from as int, to as int),
{
    let mut s = String::new();
    push_chars(&mut s, v, from, to);
    assert(Seq::<char>::empty() + v@.subrange(from as int, to as int) =~= v@.subrange(from as int, to as int));
    s
}

/// A string holding every character of `v`.
pub fn string_of_all(v: &Vec<char>) -> (s: String)
    ensures
        s@ == v@,
{
    let s = string_of(v, 0, v.len());
    assert(v@.subrange(0, v@.len() as int) =~= v@);
    s
}

/// Whether two strings hold the same characters.
pub fn str_eq(a: &str, b: &str) -> (r: bool)
    ensures
        r == (a@ == b@),
{
    let va = chars_of(a);
    let vb = chars_of(b);
    if va.len() != vb.len() {
        return false;
    }
    let mut i: usize = 0;
    while i < va.len()
        invariant
            va@ == a@,
            vb@ == b@,
            va@.len() == vb@.len(),
            0 <= i <= va@.len(),
            forall|k: int| 0 <= k < i ==> va@[k] == vb@[k],
        decreases va@.len() - i,
    {
        if va[i] != vb[i] {
            return false;
        }
        i = i + 1;
    }
    assert(va@ =~= vb@);
    true
}

// ---------------------------------------------------------------------------
// Trimming
// ---------------------------------------------------------------------------

/// The class of characters that a trim removes: white space, or `'.'`.
pub open spec fn strip_class(c: char, dots: bool) -> bool {
    if dots {
        c == '.'
    } else {
        is_ws(c)
    }
}

/// `s` without its leading characters of the class.
pub open spec fn trim_start_by(s: Seq<char>, dots: bool) -> Seq<char>
    decreases s.len(),
{
    if s.len() > 0 && strip_class(s[0], dots) {
        trim_start_by(s.drop_first(), dots)
    } else {
        s
    }
}

/// `s` without its trailing characters of the class.
pub open spec fn trim_end_by(s: Seq<char>, dots: bool) -> Seq<char>
    decreases s.len(),
{
    if s.len() > 0 && strip_class(s.last(), dots) {
        trim_end_by(s.drop_last(), dots)
    } else {
        s
    }
}

/// `str::trim`: `s` without leading and trailing white space.
pub open spec fn trim(s: Seq<char>) -> Seq<char> {
    trim_end_by(trim_start_by(s, false), false)
}

/// `str::trim_matches('.')`: `s` without leading and trailing dots.
pub open spec fn trim_dots(s: Seq<char>) -> Seq<char> {
    trim_end_by(trim_start_by(s, true), true)
}

proof fn lemma_trim_start_head(s: Seq<char>, dots: bool)
    ensures
        trim_start_by(s, dots).len() == 0 || !strip_class(trim_start_by(s, dots)[0], dots),
    decreases s.len(),
{
    if s.len() > 0 && strip_class(s[0], dots) {
        lemma_trim_start_head(s.drop_first(), dots);
    }
}

proof fn lemma_trim_end_prefix(s: Seq<char>, dots: bool)
    ensures
        trim_end_by(s, dots) == s.take(trim_end_by(s, dots).len() as int),
        trim_end_by(s, dots).len() <= s.len(),
        trim_end_by(s, dots).len() == 0 || !strip_class(trim_end_by(s, dots).last(), dots),
    decreases s.len(),
{
    if s.len() > 0 && strip_class(s.last(), dots) {
        lemma_trim_end_prefix(s.drop_last(), dots);
        let t = trim_end_by(s.drop_last(), dots);
        assert(s.drop_last().take(t.len() as int) =~= s.take(t.len() as int));
    } else {
        assert(s.take(s.len() as int) =~= s);
    }
}

/// Trimming twice is trimming once.
pub proof fn lemma_trim_idempotent(s: Seq<char>)
    ensures
        trim(trim(s)) == trim(s),
{
    let u = trim_start_by(s, false);
    let t = trim_end_by(u, false);
    lemma_trim_start_head(s, false);
    lemma_trim_end_prefix(u, false);
    if t.len() > 0 {
        assert(t[0] == u[0]);
    }
    assert(trim_start_by(t, false) == t);
    lemma_trim_end_prefix(t, false);
    assert(trim_end_by(t, false) == t);
}

pub fn in_strip_class(c: char, dots: bool) -> (r: bool)
    ensures
        r == strip_class(c, dots),
{
    if dots {
        c == '.'
    } else {
        char_is_whitespace(c)
    }
}

/// The bounds of `v[from..to]` once the characters of the class are trimmed from both ends.
pub fn trim_bounds(v: &Vec<char>, from: usize, to: usize, dots: bool) -> (r: (usize, usize))
    requires
        from <= to <= v@.len(),
    ensures
        from <= r.0 <= r.1 <= to,
        v@.subrange(r.0 as int, r.1 as int) == trim_end_by(
            trim_start_by(v@.subrange(from as int, to as int), dots),
            dots,
        ),
{
    let mut lo = from;
    while lo < to && in_strip_class(v[lo], dots)
        invariant
            from <= lo <= to <= v@.len(),
            trim_start_by(v@.subrange(from as int, to as int), dots) == trim_start_by(
                v@.subrange(lo as int, to as int),
                dots,
            ),
        decreases to - lo,
    {
        assert(v@.subrange(lo as int, to as int).drop_first() =~= v@.subrange(lo + 1, to as int));
        lo = lo + 1;
    }
    assert(trim_start_by(v@.subrange(lo as int, to as int), dots) == v@.subrange(lo as int, to as int));
    let mut hi = to;
    while hi > lo && in_strip_class(v[hi - 1], dots)
        invariant
            from <= lo <= hi <= to <= v@.len(),
            trim_end_by(v@.subrange(lo as int, to as int), dots) == trim_end_by(
                v@.subrange(lo as int, hi as int),
                dots,
            ),
        decreases hi - lo,
    {
        assert(v@.subrange(lo as int, hi as int).drop_last() =~= v@.subrange(lo as int, hi - 1));
        hi = hi - 1;
    }
    (lo, hi)
}

/// `str::trim` as a string.
pub fn trim_string(s: &str) -> (r: String)
    ensures
        r@ == trim(s@),
{
    let v = chars_of(s);
    let (lo, hi) = trim_bounds(&v, 0, v.len(), false);
    assert(v@.subrange(0, v@.len() as int) =~= v@);
    string_of(&v, lo, hi)
}

/// Whether `s` holds nothing but white space.
pub fn is_blank(s: &str) -> (r: bool)
    ensures
        r == (trim(s@).len() == 0),
{
    let v = chars_of(s);
    let (lo, hi) = trim_bounds(&v, 0, v.len(), false);
    assert(v@.subrange(0, v@.len() as int) =~= v@);
    lo == hi
}

// ---------------------------------------------------------------------------
// Words
// ---------------------------------------------------------------------------

/// The words of `s` after a partial word `cur`: maximal runs of characters that are not
/// white space, in order.
pub open spec fn split_ws(s: Seq<char>, cur: Seq<char>) -> Seq<Seq<char>>
    decreases s.len(),
{
    if s.len() == 0 {
        if cur.len() > 0 {
            seq![cur]
        } else {
            seq![]
        }
    } else if is_ws(s[0]) {
        (if cur.len() > 0 {
            seq![cur]
        } else {
            seq![]
        }) + split_ws(s.drop_first(), seq![])
    } else {
        split_ws(s.drop_first(), cur.push(s[0]))
    }
}

/// `str::split_whitespace`: the words of `s`.
pub open spec fn words(s: Seq<char>) -> Seq<Seq<char>> {
    split_ws(s, seq![])
}

/// The character sequences held by a vector of character vectors.
pub open spec fn views(v: Seq<Vec<char>>) -> Seq<Seq<char>> {
    v.map_values(|w: Vec<char>| w@)
}

/// The words of `s` (`str::split_whitespace`), each as a vector of characters.
pub fn split_words(s: &Vec<char>) -> (r: Vec<Vec<char>>)
    ensures
        views(r@) == words(s@),
{
    let mut acc: Vec<Vec<char>> = Vec::new();
    let mut cur: Vec<char> = Vec::new();
    let mut i: usize = 0;
    assert(s@.skip(0) =~= s@);
    while i < s.len()
        invariant
            0 <= i <= s@.len(),
            words(s@) == views(acc@) + split_ws(s@.skip(i as int), cur@),
        decreases s@.len() - i,
    {
        let c = s[i];
        let ghost rest = s@.skip(i as int);
        assert(rest[0] == c);
        assert(rest.drop_first() =~= s@.skip(i + 1));
        if char_is_whitespace(c) {
            if cur.len() > 0 {
                let ghost before = views(acc@);
                let w = cur;
                acc.push(w);
                cur = Vec::new();
                assert(views(acc@) =~= before.push(w@));
                assert(views(acc@) + split_ws(s@.skip(i + 1), cur@) =~= before + (seq![w@]
                    + split_ws(s@.skip(i + 1), seq![])));
            } else {
                assert(cur@ =~= Seq::<char>::empty());
                assert(views(acc@) + split_ws(s@.skip(i + 1), cur@) =~= views(acc@) + (
                Seq::<Seq<char>>::empty() + split_ws(s@.skip(i + 1), seq![])));
            }
        } else {
            cur.push(c);
        }
        i = i + 1;
    }
    if cur.len() > 0 {
        let ghost before = views(acc@);
        let w = cur;
        acc.push(w);
        assert(views(acc@) =~= before.push(w@));
        assert(split_ws(s@.skip(i as int), w@) == seq![w@]);
    } else {
        assert(cur@ =~= Seq::<char>::empty());
        assert(split_ws(s@.skip(i as int), cur@) == Seq::<Seq<char>>::empty());
    }
    assert(words(s@) =~= views(acc@));
    acc
}

/// The items of `ws` joined by `sep`.
pub open spec fn join(ws: Seq<Seq<char>>, sep: Seq<char>) -> Seq<char>
    decreases ws.len(),
{
    if ws.len() == 0 {
        seq![]
    } else if ws.len() == 1 {
        ws[0]
    } else {
        join(ws.drop_last(), sep) + sep + ws.last()
    }
}

/// Joining two non-empty lists is joining each and putting the separator between.
pub proof fn lemma_join_append(a: Seq<Seq<char>>, b: Seq<Seq<char>>, sep: Seq<char>)
    requires
        a.len() > 0,
        b.len() > 0,
    ensures
        join(a + b, sep) == join(a, sep) + sep + join(b, sep),
    decreases b.len(),
{
    if b.len() == 1 {
        assert((a + b).drop_last() =~= a);
        assert((a + b).last() == b[0]);
    } else {
        lemma_join_append(a, b.drop_last(), sep);
        assert((a + b).drop_last() =~= a + b.drop_last());
        assert((a + b).last() == b.last());
        assert(join(a + b, sep) =~= join(a, sep) + sep + join(b, sep));
    }
}

/// Every word that `split_ws` yields is non-empty.
pub proof fn lemma_split_ws_nonempty(s: Seq<char>, cur: Seq<char>)
    ensures
        forall|i: int|
            0 <= i < split_ws(s, cur).len() ==> (#[trigger] split_ws(s, cur)[i]).len() > 0,
    decreases s.len(),
{
    if s.len() == 0 {
        assert(split_ws(s, cur) == (if cur.len() > 0 {
            seq![cur]
        } else {
            Seq::<Seq<char>>::empty()
        }));
    } else if is_ws(s[0]) {
        lemma_split_ws_nonempty(s.drop_first(), seq![]);
        let head: Seq<Seq<char>> = if cur.len() > 0 {
            seq![cur]
        } else {
            seq![]
        };
        let tail = split_ws(s.drop_first(), seq![]);
        assert(split_ws(s, cur) == head + tail);
        assert forall|i: int| 0 <= i < split_ws(s, cur).len() implies (#[trigger] split_ws(
            s,
            cur,
        )[i]).len() > 0 by {
            if i < head.len() {
                assert(split_ws(s, cur)[i] == cur);
            } else {
                assert(split_ws(s, cur)[i] == tail[i - head.len()]);
            }
        }
    } else {
        lemma_split_ws_nonempty(s.drop_first(), cur.push(s[0]));
        assert(split_ws(s, cur) == split_ws(s.drop_first(), cur.push(s[0])));
    }
}

/// `[T]::join(" ")` over `ws[from..to]`.
pub fn join_words(ws: &Vec<Vec<char>>, from: usize, to: usize) -> (r: String)
    requires
        from <= to <= ws@.len(),
    ensures
        r@ == join(views(ws@).subrange(from as int, to as int), seq![' ']),
{
    let mut r = String::new();
    let mut i = from;
    assert(views(ws@).subrange(from as int, from as int) =~= Seq::<Seq<char>>::empty());
    while i < to
        invariant
            from <= i <= to <= ws@.len(),
            r@ == join(views(ws@).subrange(from as int, i as int), seq![' ']),
        decreases to - i,
    {
        let ghost part = views(ws@).subrange(from as int, i + 1);
        assert(part.drop_last() =~= views(ws@).subrange(from as int, i as int));
        assert(part.last() == ws[i as int]@);
        if i > from {
            push_char(&mut r, ' ');
        } else {
            assert(part.len() == 1);
        }
        let w = &ws[i];
        push_chars(&mut r, w, 0, w.len());
        assert(w@.subrange(0, w@.len() as int) =~= w@);
        proof {
            if i > from {
                assert(r@ =~= join(part.drop_last(), seq![' ']) + seq![' '] + part.last());
            } else {
                assert(r@ =~= part[0]);
            }
        }
        i = i + 1;
    }
    r
}

// ---------------------------------------------------------------------------
// Decimal numerals
// ---------------------------------------------------------------------------

/// The character of a decimal digit.
pub open spec fn digit(d: nat) -> char {
    (48 + d) as char
}

/// The decimal numeral of `n`, without leading zeros.
pub open spec fn dec(n: nat) -> Seq<char>
    decreases n,
{
    if n < 10 {
        seq![digit(n)]
    } else {
        dec(n / 10).push(digit(n % 10))
    }
}

/// The decimal numeral of `n`, led by `-` when it is negative (`Display` for integers).
pub open spec fn dec_int(n: int) -> Seq<char> {
    if n < 0 {
        seq!['-'] + dec((-n) as nat)
    } else {
        dec(n as nat)
    }
}

/// `{:02}`: the decimal numeral of `n`, padded with zeros to two characters.
pub open spec fn dec2(n: nat) -> Seq<char> {
    if n < 10 {
        seq!['0'] + dec(n)
    } else {
        dec(n)
    }
}

pub fn digit_char(d: u128) -> (c: char)
    requires
        d < 10,
    ensures
        c == digit(d as nat),
{
    match d {
        0 => '0',
        1 => '1',
        2 => '2',
        3 => '3',
        4 => '4',
        5 => '5',
        6 => '6',
        7 => '7',
        8 => '8',
        _ => '9',
    }
}

/// Appends the decimal numeral of `n` to `s`.
pub fn push_dec(s: &mut String, n: u128)
    ensures
        final(s)@ == old(s)@ + dec(n as nat),
    decreases n,
{
    if n >= 10 {
        push_dec(s, n / 10);
    }
    push_char(s, digit_char(n % 10));
    proof {
        if n >= 10 {
            assert(final(s)@ =~= old(s)@ + dec(n as nat));
        } else {
            assert(final(s)@ =~= old(s)@ + dec(n as nat));
        }
    }
}

/// Appends the decimal numeral of a signed `n` to `s`.
pub fn push_dec_i64(s: &mut String, n: i64)
    ensures
        final(s)@ == old(s)@ + dec_int(n as int),
{
    if n < 0 {
        push_char(s, '-');
        let m: u64 = ((-(n + 1)) as u64) + 1;
        push_dec(s, m as u128);
        assert(final(s)@ =~= old(s)@ + dec_int(n as int));
    } else {
        push_dec(s, n as u128);
    }
}

/// Appends `{:02}` of `n` to `s`.
pub fn push_dec2(s: &mut String, n: u64)
    ensures
        final(s)@ == old(s)@ + dec2(n as nat),
{
    if n < 10 {
        push_char(s, '0');
    }
    push_dec(s, n as u128);
    assert(final(s)@ =~= old(s)@ + dec2(n as nat));
}

} // verus!
