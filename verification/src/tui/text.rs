//! Text building blocks shared by the renderers: repeated characters,
//! decimal numbers, fixed-point readouts and padding to a column width.
//!
//! Every text is modelled as a `Seq<char>`, the view of a `String`.

use vstd::prelude::*;

verus! {

/// `String::push` of the standard library: the string afterwards is the
/// string before with `ch` added at its end. This is taken from the
/// documentation of `std`, not proved.
pub assume_specification[ String::push ](s: &mut String, ch: char)
    ensures
        final(s)@ == old(s)@.push(ch),
;

/// The lines of a frame, each as its sequence of characters.
pub open spec fn lines(frame: Vec<String>) -> Seq<Seq<char>> {
    Seq::new(frame@.len(), |i: int| frame@[i]@)
}

/// The text made of `n` copies of `c`.
pub open spec fn repeated(c: char, n: nat) -> Seq<char> {
    Seq::new(n, |i: int| c)
}

/// The character that shows the digit `d`, for `0 <= d <= 9`.
pub open spec fn digit_char(d: int) -> char {
    ((48 + d) as u8) as char
}

/// The decimal digits of `n`, most significant first, without leading zeros.
pub open spec fn decimal(n: nat) -> Seq<char>
    decreases n,
{
    if n < 10 {
        seq![digit_char(n as int)]
    } else {
        decimal(n / 10).push(digit_char((n % 10) as int))
    }
}

/// The digits of `mag` with a decimal point in front of the last `decimals`
/// of them; the part before the point is never empty.
pub open spec fn pointed(mag: nat, decimals: nat) -> Seq<char>
    decreases decimals,
{
    if decimals == 0 {
        decimal(mag).push('.')
    } else {
        pointed(mag / 10, (decimals - 1) as nat).push(digit_char((mag % 10) as int))
    }
}

/// The magnitude of `v`.
pub open spec fn magnitude(v: int) -> nat {
    if v < 0 {
        (-v) as nat
    } else {
        v as nat
    }
}

/// The readout of the fixed-point number `value / 10^decimals`: a minus
/// sign if it is negative, the whole part, and `decimals` digits after the
/// point. With no decimals there is no point either.
pub open spec fn fixed_point(value: int, decimals: nat) -> Seq<char> {
    let sign = if value < 0 {
        seq!['-']
    } else {
        Seq::<char>::empty()
    };
    let digits = if decimals == 0 {
        decimal(magnitude(value))
    } else {
        pointed(magnitude(value), decimals)
    };
    sign + digits
}

/// `text` moved to the right edge of a column of `width` characters. A
/// text that is as wide as the column or wider stays as it is.
pub open spec fn right_aligned(text: Seq<char>, width: nat) -> Seq<char> {
    if text.len() < width {
        repeated(' ', (width - text.len()) as nat) + text
    } else {
        text
    }
}

/// `text` filled with blanks at its right to `width` characters. A text
/// that is as wide as that or wider stays as it is.
pub open spec fn left_aligned(text: Seq<char>, width: nat) -> Seq<char> {
    if text.len() < width {
        text + repeated(' ', (width - text.len()) as nat)
    } else {
        text
    }
}

/// The length of the longest of `texts`; 0 where there is none.
pub open spec fn longest(texts: Seq<Seq<char>>) -> nat
    decreases texts.len(),
{
    if texts.len() == 0 {
        0
    } else {
        let rest = longest(texts.drop_last());
        if rest >= texts.last().len() {
            rest
        } else {
            texts.last().len()
        }
    }
}

/// The width of `texts` set one below the other in a column that is at
/// least `least` characters wide: the length of the longest of them, but no
/// less than `least`.
pub open spec fn column_width(texts: Seq<Seq<char>>, least: nat) -> nat {
    if longest(texts) >= least {
        longest(texts)
    } else {
        least
    }
}

/// Every one of `texts` filled with blanks at its right to `width`
/// characters.
pub open spec fn filled(texts: Seq<Seq<char>>, width: nat) -> Seq<Seq<char>> {
    Seq::new(texts.len(), |i: int| left_aligned(texts[i], width))
}

/// None of the texts is longer than the longest, and one is as long.
pub proof fn lemma_longest(texts: Seq<Seq<char>>)
    ensures
        forall|i: int| 0 <= i < texts.len() ==> (#[trigger] texts[i]).len() <= longest(texts),
        texts.len() > 0 ==> exists|i: int|
            0 <= i < texts.len() && (#[trigger] texts[i]).len() == longest(texts),
    decreases texts.len(),
{
    if texts.len() > 0 {
        let rest = texts.drop_last();
        lemma_longest(rest);
        let last = texts.len() - 1;
        assert forall|i: int| 0 <= i < texts.len() implies (#[trigger] texts[i]).len() <= longest(
            texts,
        ) by {
            if i < last {
                assert(texts[i] == rest[i]);
            }
        }
        if longest(rest) >= texts.last().len() && rest.len() > 0 {
            let i = choose|i: int| 0 <= i < rest.len() && (#[trigger] rest[i]).len() == longest(rest);
            assert(texts[i] == rest[i]);
        } else {
            assert(texts[last].len() == longest(texts));
        }
    }
}

/// Texts filled to the width of their column are all exactly that wide.
pub proof fn lemma_filled_is_rectangular(texts: Seq<Seq<char>>, least: nat)
    ensures
        filled(texts, column_width(texts, least)).len() == texts.len(),
        forall|i: int|
            0 <= i < texts.len() ==> (#[trigger] filled(
                texts,
                column_width(texts, least),
            )[i]).len() == column_width(texts, least),
{
    lemma_longest(texts);
    let width = column_width(texts, least);
    assert forall|i: int| 0 <= i < texts.len() implies (#[trigger] filled(texts, width)[i]).len()
        == width by {
        assert(texts[i].len() <= longest(texts));
    }
}

/// `text` in the middle of a column of `width` characters. Where the
/// blanks cannot be shared evenly the extra one goes to the right. A text
/// that is as wide as the column or wider stays as it is.
pub open spec fn centered(text: Seq<char>, width: nat) -> Seq<char> {
    if text.len() < width {
        let left = (width - text.len()) / 2;
        let right = width - text.len() - left;
        repeated(' ', left as nat) + text + repeated(' ', right as nat)
    } else {
        text
    }
}

/// Adds `n` copies of `c` to the end of `s`.
pub fn push_repeated(s: &mut String, c: char, n: usize)
    ensures
        final(s)@ == old(s)@ + repeated(c, n as nat),
{
    let mut i: usize = 0;
    while i < n
        invariant
            i <= n,
            s@ == old(s)@ + repeated(c, i as nat),
        decreases n - i,
    {
        s.push(c);
        i += 1;
    }
}

/// The text made of `n` copies of `c`.
pub fn repeat_char(c: char, n: usize) -> (s: String)
    ensures
        s@ == repeated(c, n as nat),
{
    let mut s = String::new();
    push_repeated(&mut s, c, n);
    s
}

/// The character for one decimal digit.
fn digit(d: u8) -> (c: char)
    requires
        d < 10,
    ensures
        c == digit_char(d as int),
{
    (48u8 + d) as char
}

/// Adds the decimal digits of `n` to the end of `s`.
pub fn push_decimal(s: &mut String, n: u64)
    ensures
        final(s)@ == old(s)@ + decimal(n as nat),
    decreases n,
{
    if n >= 10 {
        push_decimal(s, n / 10);
    }
    s.push(digit((n % 10) as u8));
}

/// Adds the digits of `mag`, with the point in front of the last
/// `decimals` of them, to the end of `s`.
fn push_pointed(s: &mut String, mag: u64, decimals: u8)
    ensures
        final(s)@ == old(s)@ + pointed(mag as nat, decimals as nat),
    decreases decimals,
{
    if decimals == 0 {
        push_decimal(s, mag);
        s.push('.');
    } else {
        push_pointed(s, mag / 10, decimals - 1);
        s.push(digit((mag % 10) as u8));
    }
}

/// Adds the readout of `value / 10^decimals` to the end of `s`.
pub fn push_fixed_point(s: &mut String, value: i64, decimals: u8)
    ensures
        final(s)@ == old(s)@ + fixed_point(value as int, decimals as nat),
{
    let mag: u64 = if value < 0 {
        s.push('-');
        (-(value as i128)) as u64
    } else {
        value as u64
    };
    if decimals == 0 {
        push_decimal(s, mag);
    } else {
        push_pointed(s, mag, decimals);
    }
}

/// Adds `text`, moved to the right edge of a column of `width`
/// characters, to the end of `s`.
pub fn push_right_aligned(s: &mut String, text: &str, width: usize)
    ensures
        final(s)@ == old(s)@ + right_aligned(text@, width as nat),
{
    let len: usize = text.unicode_len();
    if len < width {
        push_repeated(s, ' ', width - len);
    }
    s.append(text);
}

/// Adds `text`, filled with blanks at its right to `width` characters, to
/// the end of `s`.
pub fn push_left_aligned(s: &mut String, text: &str, width: usize)
    ensures
        final(s)@ == old(s)@ + left_aligned(text@, width as nat),
{
    let len: usize = text.unicode_len();
    s.append(text);
    if len < width {
        push_repeated(s, ' ', width - len);
    }
}

/// The length of the longest of `texts`.
pub fn longest_line(texts: &Vec<String>) -> (len: usize)
    ensures
        len == longest(lines(*texts)),
{
    let ghost all = lines(*texts);
    let mut len: usize = 0;
    let mut i: usize = 0;
    while i < texts.len()
        invariant
            i <= texts@.len(),
            all == lines(*texts),
            len == longest(all.subrange(0, i as int)),
        decreases texts@.len() - i,
    {
        assert(all.subrange(0, i + 1).drop_last() =~= all.subrange(0, i as int));
        let here: usize = texts[i].as_str().unicode_len();
        if here > len {
            len = here;
        }
        i += 1;
    }
    assert(all.subrange(0, i as int) =~= all);
    len
}

/// Fills every one of `texts` with blanks at its right to the width of
/// their column, which is at least `least` characters wide: the result is
/// a rectangle of text.
pub fn fill_lines(texts: &Vec<String>, least: usize) -> (block: Vec<String>)
    ensures
        lines(block) == filled(lines(*texts), column_width(lines(*texts), least as nat)),
        block@.len() == texts@.len(),
        forall|i: int|
            0 <= i < block@.len() ==> (#[trigger] block@[i])@.len() == column_width(
                lines(*texts),
                least as nat,
            ),
{
    let top: usize = longest_line(texts);
    let width: usize = if top >= least {
        top
    } else {
        least
    };
    let mut block: Vec<String> = Vec::new();
    let mut i: usize = 0;
    while i < texts.len()
        invariant
            i <= texts@.len(),
            width == column_width(lines(*texts), least as nat),
            block@.len() == i,
            forall|k: int|
                0 <= k < i ==> (#[trigger] block@[k])@ == left_aligned(texts@[k]@, width as nat),
        decreases texts@.len() - i,
    {
        let mut line = String::new();
        push_left_aligned(&mut line, texts[i].as_str(), width);
        block.push(line);
        i += 1;
    }
    proof {
        lemma_filled_is_rectangular(lines(*texts), least as nat);
        assert(lines(block) =~~= filled(lines(*texts), width as nat));
        assert forall|i: int| 0 <= i < block@.len() implies (#[trigger] block@[i])@.len()
            == width by {
            assert(lines(block)[i] == block@[i]@);
        }
    }
    block
}

/// Adds `text`, set in the middle of a column of `width` characters, to
/// the end of `s`.
pub fn push_centered(s: &mut String, text: &str, width: usize)
    ensures
        final(s)@ == old(s)@ + centered(text@, width as nat),
{
    let len: usize = text.unicode_len();
    if len < width {
        let left: usize = (width - len) / 2;
        let right: usize = width - len - left;
        push_repeated(s, ' ', left);
        s.append(text);
        push_repeated(s, ' ', right);
    } else {
        s.append(text);
    }
}

} // verus!
