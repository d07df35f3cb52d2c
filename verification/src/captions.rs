use vstd::prelude::*;
use crate::text::{
    chars_of, dec, join, join_words, lemma_join_append, lemma_split_ws_nonempty, push_chars,
    push_dec, push_str, split_words, views, words,
};

verus! {

/// Words per caption.
pub const WORDS_PER_CAPTION: usize = 8;

/// The character sequences held by a sequence of strings.
pub open spec fn strings(v: Seq<String>) -> Seq<Seq<char>> {
    v.map_values(|s: String| s@)
}

/// `ws` cut into consecutive groups of `n` items; the last group may be shorter.
pub open spec fn groups<T>(ws: Seq<T>, n: nat) -> Seq<Seq<T>>
    decreases ws.len(),
{
    if ws.len() == 0 || n == 0 {
        seq![]
    } else if ws.len() <= n {
        seq![ws]
    } else {
        seq![ws.take(n as int)] + groups(ws.skip(n as int), n)
    }
}

/// The captions of a transcript: its words in groups of eight, each group joined by spaces.
pub open spec fn caption_chunks(transcript: Seq<char>) -> Seq<Seq<char>> {
    groups(words(transcript), WORDS_PER_CAPTION as nat).map_values(
        |g: Seq<Seq<char>>| join(g, seq![' ']),
    )
}

/// Splits a transcript into captions of up to eight words.
pub fn chunk_text(transcript: &str) -> (r: Vec<String>)
    ensures
        strings(r@) == caption_chunks(transcript@),
{
    let chars = chars_of(transcript);
    let ws = split_words(&chars);
    let ghost all = views(ws@);
    let n = ws.len();
    let mut out: Vec<String> = Vec::new();
    let mut i: usize = 0;
    let ghost f = |g: Seq<Seq<char>>| join(g, seq![' ']);
    assert(all.skip(0) =~= all);
    while i < n
        invariant
            n == ws@.len(),
            all == views(ws@),
            all == words(transcript@),
            0 <= i <= n,
            f == (|g: Seq<Seq<char>>| join(g, seq![' '])),
            groups(all, 8).map_values(f) == strings(out@) + groups(all.skip(i as int), 8).map_values(f),
        decreases n - i,
    {
        let end = if n - i > WORDS_PER_CAPTION {
            i + WORDS_PER_CAPTION
        } else {
            n
        };
        let line = join_words(&ws, i, end);
        let ghost rest = all.skip(i as int);
        let ghost before = strings(out@);
        assert(views(ws@).subrange(i as int, end as int) =~= rest.take((end - i) as int));
        out.push(line);
        proof {
            assert(strings(out@) =~= before.push(line@));
            if rest.len() <= 8 {
                assert(rest.take((end - i) as int) =~= rest);
                assert(all.skip(end as int) =~= Seq::<Seq<char>>::empty());
                assert(groups(rest, 8) == seq![rest]);
                assert(groups(rest, 8).map_values(f) =~= seq![line@]);
            } else {
                assert(rest.skip(8) =~= all.skip(end as int));
                let tail = groups(all.skip(end as int), 8);
                assert(groups(rest, 8) == seq![rest.take(8)] + tail);
                assert(groups(rest, 8).map_values(f) =~= seq![line@] + tail.map_values(f));
            }
            assert(strings(out@) + groups(all.skip(end as int), 8).map_values(f) =~= before + groups(
                rest,
                8,
            ).map_values(f));
        }
        i = end;
    }
    assert(all.skip(n as int) =~= Seq::<Seq<char>>::empty());
    assert(strings(out@) =~= groups(all, 8).map_values(f));
    out
}

/// Putting the groups back together gives the items in their order.
pub proof fn lemma_groups_flatten<T>(ws: Seq<T>, n: nat)
    requires
        n > 0,
    ensures
        groups(ws, n).flatten() == ws,
    decreases ws.len(),
{
    if ws.len() == 0 {
        assert(groups(ws, n).flatten() =~= ws);
    } else if ws.len() <= n {
        let g = groups(ws, n);
        assert(g == seq![ws]);
        assert(g.drop_first() =~= Seq::<Seq<T>>::empty());
        assert(g.drop_first().flatten() =~= Seq::<T>::empty());
        assert(g.flatten() == g[0] + g.drop_first().flatten());
        assert(g.flatten() =~= ws);
    } else {
        lemma_groups_flatten(ws.skip(n as int), n);
        let g = groups(ws, n);
        let tail = groups(ws.skip(n as int), n);
        assert(g == seq![ws.take(n as int)] + tail);
        assert(g[0] == ws.take(n as int));
        assert(g.drop_first() =~= tail);
        assert(g.flatten() == g[0] + g.drop_first().flatten());
        assert(ws =~= ws.take(n as int) + ws.skip(n as int));
    }
}

/// Every group holds between one and `n` items, and all but the last hold exactly `n`;
/// there are `ceil(len / n)` groups.
pub proof fn lemma_groups_sizes<T>(ws: Seq<T>, n: nat)
    requires
        n > 0,
    ensures
        groups(ws, n).len() == (ws.len() + n - 1) / (n as int),
        forall|i: int|
            0 <= i < groups(ws, n).len() ==> 0 < (#[trigger] groups(ws, n)[i]).len() <= n,
        forall|i: int|
            0 <= i < groups(ws, n).len() - 1 ==> (#[trigger] groups(ws, n)[i]).len() == n,
    decreases ws.len(),
{
    if ws.len() == 0 {
        assert((ws.len() + n - 1) / (n as int) == 0) by (nonlinear_arith)
            requires
                ws.len() == 0,
                n > 0,
        ;
    } else if ws.len() <= n {
        assert((ws.len() + n - 1) / (n as int) == 1) by (nonlinear_arith)
            requires
                0 < ws.len() <= n,
        ;
    } else {
        let rest = ws.skip(n as int);
        lemma_groups_sizes(rest, n);
        let g = groups(ws, n);
        let tail = groups(rest, n);
        assert(g == seq![ws.take(n as int)] + tail);
        assert((ws.len() + n - 1) / (n as int) == (rest.len() + n - 1) / (n as int) + 1) by (
        nonlinear_arith)
            requires
                rest.len() == ws.len() - n,
                n > 0,
        ;
        assert forall|i: int| 0 <= i < g.len() implies 0 < (#[trigger] g[i]).len() <= n by {
            if i > 0 {
                assert(g[i] == tail[i - 1]);
            }
        }
        assert forall|i: int| 0 <= i < g.len() - 1 implies (#[trigger] g[i]).len() == n by {
            if i > 0 {
                assert(g[i] == tail[i - 1]);
            }
        }
    }
}

// ---------------------------------------------------------------------------
// Line wrapping
// ---------------------------------------------------------------------------

/// Greedy wrapping: `cur` is the line being filled; a word that would push the line past
/// `max` characters (counting the joining space) starts a new line.
pub open spec fn wrap_from(ws: Seq<Seq<char>>, cur: Seq<char>, max: int) -> Seq<Seq<char>>
    decreases ws.len(),
{
    if ws.len() == 0 {
        if cur.len() > 0 {
            seq![cur]
        } else {
            seq![]
        }
    } else if cur.len() == 0 {
        wrap_from(ws.drop_first(), ws[0], max)
    } else if cur.len() + 1 + ws[0].len() > max {
        seq![cur] + wrap_from(ws.drop_first(), ws[0], max)
    } else {
        wrap_from(ws.drop_first(), cur + seq![' '] + ws[0], max)
    }
}

/// The lines of `text` wrapped at `max` characters; a text without words stays one line.
pub open spec fn wrapped(text: Seq<char>, max: int) -> Seq<Seq<char>> {
    let lines = wrap_from(words(text), seq![], max);
    if lines.len() == 0 {
        seq![text]
    } else {
        lines
    }
}

/// How many characters fit on a caption line of a frame `width` pixels wide, drawn with
/// glyphs of 8 x 8 dots scaled by `scale`: half the width, at least 8.
pub open spec fn caption_columns_spec(width: nat, scale: nat) -> nat {
    let n = (width / 2) / (8 * scale);
    if n >= 8 {
        n
    } else {
        8
    }
}

pub fn caption_columns(width: u32, scale: u32) -> (r: usize)
    requires
        0 < scale <= u32::MAX / 8,
    ensures
        r == caption_columns_spec(width as nat, scale as nat),
{
    let n: u32 = (width / 2) / (8 * scale);
    if n >= 8 {
        n as usize
    } else {
        8
    }
}

/// Wraps the words of `text` into lines of at most `max_chars` characters (a longer word
/// stands on a line of its own).
pub fn wrap_line(text: &str, max_chars: usize) -> (r: Vec<String>)
    ensures
        strings(r@) == wrapped(text@, max_chars as int),
{
    let chars = chars_of(text);
    let ws = split_words(&chars);
    let ghost all = views(ws@);
    let mut lines: Vec<String> = Vec::new();
    let mut current = String::new();
    let mut i: usize = 0;
    assert(all.skip(0) =~= all);
    while i < ws.len()
        invariant
            all == views(ws@),
            all == words(text@),
            0 <= i <= ws@.len(),
            wrap_from(all, seq![], max_chars as int) == strings(lines@) + wrap_from(
                all.skip(i as int),
                current@,
                max_chars as int,
            ),
        decreases ws@.len() - i,
    {
        let word = &ws[i];
        let ghost rest = all.skip(i as int);
        let ghost before = strings(lines@);
        let ghost cur0 = current@;
        assert(rest[0] == word@);
        assert(rest.drop_first() =~= all.skip(i + 1));
        let cur_len = current.as_str().unicode_len();
        if cur_len == 0 {
            let mut fresh = String::new();
            push_chars(&mut fresh, word, 0, word.len());
            assert(word@.subrange(0, word@.len() as int) =~= word@);
            assert(fresh@ =~= word@);
            current = fresh;
        } else {
            let too_long = cur_len >= max_chars || word.len() > max_chars - cur_len - 1;
            assert(too_long == (cur0.len() + 1 + word@.len() > max_chars));
            if too_long {
                let done = current;
                lines.push(done);
                assert(strings(lines@) =~= before.push(cur0));
                let mut fresh = String::new();
                push_chars(&mut fresh, word, 0, word.len());
                assert(word@.subrange(0, word@.len() as int) =~= word@);
                assert(fresh@ =~= word@);
                current = fresh;
                assert(strings(lines@) + wrap_from(all.skip(i + 1), current@, max_chars as int)
                    =~= before + (seq![cur0] + wrap_from(rest.drop_first(), word@, max_chars as int)));
            } else {
                crate::text::push_char(&mut current, ' ');
                push_chars(&mut current, word, 0, word.len());
                assert(word@.subrange(0, word@.len() as int) =~= word@);
                assert(current@ =~= cur0 + seq![' '] + word@);
            }
        }
        i = i + 1;
    }
    assert(all.skip(i as int) =~= Seq::<Seq<char>>::empty());
    if current.as_str().unicode_len() > 0 {
        let ghost before = strings(lines@);
        let last = current;
        lines.push(last);
        assert(strings(lines@) =~= before.push(last@));
    }
    if lines.len() == 0 {
        let mut whole = String::new();
        push_chars(&mut whole, &chars, 0, chars.len());
        assert(chars@.subrange(0, chars@.len() as int) =~= chars@);
        lines.push(whole);
        assert(strings(lines@) =~= seq![text@]);
    }
    lines
}

/// Joining the joined groups gives the joined items.
proof fn lemma_join_groups(ws: Seq<Seq<char>>, n: nat)
    requires
        n > 0,
    ensures
        join(groups(ws, n).map_values(|g: Seq<Seq<char>>| join(g, seq![' '])), seq![' ']) == join(
            ws,
            seq![' '],
        ),
    decreases ws.len(),
{
    let f = |g: Seq<Seq<char>>| join(g, seq![' ']);
    let sp = seq![' '];
    if ws.len() == 0 {
        assert(groups(ws, n).map_values(f) =~= Seq::<Seq<char>>::empty());
    } else if ws.len() <= n {
        assert(groups(ws, n).map_values(f) =~= seq![join(ws, sp)]);
    } else {
        let a = ws.take(n as int);
        let b = ws.skip(n as int);
        lemma_join_groups(b, n);
        let rest = groups(b, n).map_values(f);
        assert(groups(ws, n).map_values(f) =~= seq![join(a, sp)] + rest);
        lemma_groups_sizes(b, n);
        assert(rest.len() > 0);
        lemma_join_append(seq![join(a, sp)], rest, sp);
        lemma_join_append(a, b, sp);
        assert(ws =~= a + b);
    }
}

/// The captions hold the transcript's words in order: joined by spaces, they read as the
/// transcript's words joined by spaces.
pub proof fn lemma_captions_keep_words(transcript: Seq<char>)
    ensures
        join(caption_chunks(transcript), seq![' ']) == join(words(transcript), seq![' ']),
{
    lemma_join_groups(words(transcript), 8);
}

/// Greedy wrapping reads back as the line being filled followed by the remaining words.
proof fn lemma_wrap_from_joins(ws: Seq<Seq<char>>, cur: Seq<char>, max: int)
    requires
        cur.len() > 0,
        forall|k: int| 0 <= k < ws.len() ==> (#[trigger] ws[k]).len() > 0,
    ensures
        wrap_from(ws, cur, max).len() > 0,
        join(wrap_from(ws, cur, max), seq![' ']) == join(seq![cur] + ws, seq![' ']),
    decreases ws.len(),
{
    let sp = seq![' '];
    if ws.len() == 0 {
        assert(seq![cur] + ws =~= seq![cur]);
    } else {
        let rest = ws.drop_first();
        assert forall|k: int| 0 <= k < rest.len() implies (#[trigger] rest[k]).len() > 0 by {
            assert(rest[k] == ws[k + 1]);
        }
        assert(ws =~= seq![ws[0]] + rest);
        if cur.len() + 1 + ws[0].len() > max {
            lemma_wrap_from_joins(rest, ws[0], max);
            let tail = wrap_from(rest, ws[0], max);
            lemma_join_append(seq![cur], tail, sp);
            lemma_join_append(seq![cur], ws, sp);
        } else {
            let line = cur + sp + ws[0];
            lemma_wrap_from_joins(rest, line, max);
            if rest.len() > 0 {
                lemma_join_append(seq![line], rest, sp);
                lemma_join_append(seq![ws[0]], rest, sp);
                lemma_join_append(seq![cur], ws, sp);
                assert(join(seq![line] + rest, sp) =~= join(seq![cur] + ws, sp));
            } else {
                assert(seq![line] + rest =~= seq![line]);
                assert(ws =~= seq![ws[0]]);
                lemma_join_append(seq![cur], ws, sp);
                assert(join(seq![cur] + ws, sp) =~= line);
            }
        }
    }
}

/// Wrapping loses no word: the lines, joined by spaces, read as the words of the text
/// joined by spaces.
pub proof fn lemma_wrap_keeps_words(text: Seq<char>, max: int)
    requires
        words(text).len() > 0,
    ensures
        join(wrapped(text, max), seq![' ']) == join(words(text), seq![' ']),
{
    let ws = words(text);
    lemma_split_ws_nonempty(text, seq![]);
    let rest = ws.drop_first();
    assert forall|k: int| 0 <= k < rest.len() implies (#[trigger] rest[k]).len() > 0 by {
        assert(rest[k] == ws[k + 1]);
    }
    assert(ws[0].len() > 0);
    lemma_wrap_from_joins(rest, ws[0], max);
    assert(ws =~= seq![ws[0]] + rest);
}

/// Greedy wrapping keeps every line within `max` characters, unless the line is a single
/// word that is longer on its own.
proof fn lemma_wrap_from_fits(ws: Seq<Seq<char>>, cur: Seq<char>, max: int, all: Seq<Seq<char>>)
    requires
        cur.len() == 0 || cur.len() <= max || all.contains(cur),
        forall|k: int| 0 <= k < ws.len() ==> all.contains(#[trigger] ws[k]),
    ensures
        forall|i: int|
            0 <= i < wrap_from(ws, cur, max).len() ==> (#[trigger] wrap_from(ws, cur, max)[i]).len()
                <= max || all.contains(wrap_from(ws, cur, max)[i]),
    decreases ws.len(),
{
    if ws.len() > 0 {
        let rest = ws.drop_first();
        assert forall|k: int| 0 <= k < rest.len() implies all.contains(#[trigger] rest[k]) by {
            assert(rest[k] == ws[k + 1]);
        }
        assert(all.contains(ws[0]));
        if cur.len() == 0 {
            lemma_wrap_from_fits(rest, ws[0], max, all);
            assert(wrap_from(ws, cur, max) == wrap_from(rest, ws[0], max));
        } else if cur.len() + 1 + ws[0].len() > max {
            lemma_wrap_from_fits(rest, ws[0], max, all);
            let tail = wrap_from(rest, ws[0], max);
            assert(wrap_from(ws, cur, max) == seq![cur] + tail);
            assert forall|i: int| 0 <= i < wrap_from(ws, cur, max).len() implies (
            #[trigger] wrap_from(ws, cur, max)[i]).len() <= max || all.contains(
                wrap_from(ws, cur, max)[i],
            ) by {
                if i > 0 {
                    assert(wrap_from(ws, cur, max)[i] == tail[i - 1]);
                }
            }
        } else {
            lemma_wrap_from_fits(rest, cur + seq![' '] + ws[0], max, all);
            assert(wrap_from(ws, cur, max) == wrap_from(rest, cur + seq![' '] + ws[0], max));
        }
    } else {
        assert(wrap_from(ws, cur, max) == (if cur.len() > 0 {
            seq![cur]
        } else {
            Seq::<Seq<char>>::empty()
        }));
    }
}

/// Every wrapped line is at most `max` characters long, or is a word of the text (or the
/// text itself, when it has no words).
pub proof fn lemma_wrap_fits(text: Seq<char>, max: int)
    ensures
        forall|i: int|
            0 <= i < wrapped(text, max).len() ==> (#[trigger] wrapped(text, max)[i]).len() <= max
                || words(text).contains(wrapped(text, max)[i]) || wrapped(text, max)[i] == text,
{
    let ws = words(text);
    assert forall|k: int| 0 <= k < ws.len() implies ws.contains(#[trigger] ws[k]) by {}
    lemma_wrap_from_fits(ws, seq![], max, ws);
}

// ---------------------------------------------------------------------------
// Caption images
// ---------------------------------------------------------------------------

/// The header of an RGBA PAM image (`P7`) of the given size.
pub open spec fn pam_header(width: nat, height: nat) -> Seq<char> {
    "P7\nWIDTH "@ + dec(width) + "\nHEIGHT "@ + dec(height)
        + "\nDEPTH 4\nMAXVAL 255\nTUPLTYPE RGB_ALPHA\nENDHDR\n"@
}

/// The bytes of ASCII text.
pub open spec fn ascii(s: Seq<char>) -> Seq<u8> {
    s.map_values(|c: char| c as u8)
}

/// A PAM image file: the header followed by the RGBA pixels.
pub fn pam_bytes(width: u32, height: u32, rgba: &[u8]) -> (r: Vec<u8>)
    ensures
        r@ == ascii(pam_header(width as nat, height as nat)) + rgba@,
{
    let mut header = String::new();
    push_str(&mut header, "P7\nWIDTH ");
    push_dec(&mut header, width as u128);
    push_str(&mut header, "\nHEIGHT ");
    push_dec(&mut header, height as u128);
    push_str(&mut header, "\nDEPTH 4\nMAXVAL 255\nTUPLTYPE RGB_ALPHA\nENDHDR\n");
    assert(header@ =~= pam_header(width as nat, height as nat));
    let hchars = chars_of(header.as_str());
    let mut out: Vec<u8> = Vec::new();
    let mut i: usize = 0;
    while i < hchars.len()
        invariant
            0 <= i <= hchars@.len(),
            hchars@ == header@,
            out@ == ascii(hchars@.take(i as int)),
        decreases hchars@.len() - i,
    {
        let c = hchars[i];
        out.push(c as u8);
        assert(hchars@.take(i + 1) =~= hchars@.take(i as int).push(c));
        assert(out@ =~= ascii(hchars@.take(i + 1)));
        i = i + 1;
    }
    assert(hchars@.take(i as int) =~= hchars@);
    out.extend_from_slice(rgba);
    out
}

} // verus!
