//! Text the panels print: numbers, trimming, joining and cutting.

use vstd::prelude::*;

verus! {

/// `String::push` puts the character behind the text it is called on.
pub assume_specification[ String::push ](s: &mut String, ch: char)
    ensures
        final(s)@ == old(s)@.push(ch),
;

/// Whether a character is white space: whether it has Unicode's property `White_Space`.
pub open spec fn is_white(c: char) -> bool {
    let n = c as u32;
    ||| 0x9 <= n <= 0xd
    ||| n == 0x20
    ||| n == 0x85
    ||| n == 0xa0
    ||| n == 0x1680
    ||| 0x2000 <= n <= 0x200a
    ||| n == 0x2028
    ||| n == 0x2029
    ||| n == 0x202f
    ||| n == 0x205f
    ||| n == 0x3000
}

/// `char::is_whitespace` tells whether a character has Unicode's property `White_Space`.
pub assume_specification[ char::is_whitespace ](c: char) -> (r: bool)
    ensures
        r == is_white(c),
;

/// The character of one decimal digit.
pub open spec fn digit(d: nat) -> char {
    ((48 + d) as u8) as char
}

/// A number in decimal, without leading zeros.
pub open spec fn digits(n: nat) -> Seq<char>
    decreases n,
{
    if n < 10 {
        seq![digit(n)]
    } else {
        digits(n / 10).push(digit(n % 10))
    }
}

/// A number in decimal.
pub fn decimal(n: u128) -> (r: String)
    ensures
        r@ == digits(n as nat),
    decreases n,
{
    let mut s: String = if n < 10 {
        String::new()
    } else {
        decimal(n / 10)
    };
    s.push((48 + (n % 10) as u8) as char);
    s
}

/// The characters of a text, one by one.
pub fn chars_of(s: &str) -> (r: Vec<char>)
    ensures
        r@ == s@,
{
    let mut out: Vec<char> = Vec::new();
    for c in it: s.chars()
        invariant
            it.seq() == s@,
            out@ == s@.take(it.index()),
    {
        proof {
            assert(s@.take(it.index() + 1) == s@.take(it.index()).push(s@[it.index()]));
        }
        out.push(c);
    }
    out
}

/// The text between two positions of a list of characters.
pub fn text_between(chars: &Vec<char>, from: usize, to: usize) -> (r: String)
    requires
        from <= to <= chars@.len(),
    ensures
        r@ == chars@.subrange(from as int, to as int),
{
    let mut out: String = String::new();
    let mut i: usize = from;
    while i < to
        invariant
            from <= i <= to <= chars@.len(),
            out@ == chars@.subrange(from as int, i as int),
        decreases to - i,
    {
        out.push(chars[i]);
        i = i + 1;
    }
    out
}

/// Without the white space in front.
pub open spec fn trim_front(s: Seq<char>) -> Seq<char>
    decreases s.len(),
{
    if s.len() > 0 && is_white(s[0]) {
        trim_front(s.drop_first())
    } else {
        s
    }
}

/// Without the white space behind.
pub open spec fn trim_back(s: Seq<char>) -> Seq<char>
    decreases s.len(),
{
    if s.len() > 0 && is_white(s.last()) {
        trim_back(s.drop_last())
    } else {
        s
    }
}

/// Without the white space on either side.
pub open spec fn trim(s: Seq<char>) -> Seq<char> {
    trim_back(trim_front(s))
}

/// The text without the white space on either side.
pub fn trimmed(s: &str) -> (r: String)
    ensures
        r@ == trim(s@),
{
    let chars: Vec<char> = chars_of(s);
    let mut from: usize = 0;
    assert(chars@.subrange(0, chars@.len() as int) == chars@);
    while from < chars.len() && chars[from].is_whitespace()
        invariant
            from <= chars@.len(),
            trim_front(chars@.subrange(from as int, chars@.len() as int)) == trim_front(chars@),
            chars@ == s@,
        decreases chars@.len() - from,
    {
        assert(chars@.subrange(from as int, chars@.len() as int).drop_first()
            == chars@.subrange(from + 1, chars@.len() as int));
        from = from + 1;
    }
    let mut to: usize = chars.len();
    while to > from && chars[to - 1].is_whitespace()
        invariant
            from <= to <= chars@.len(),
            trim_back(chars@.subrange(from as int, to as int)) == trim(chars@),
            chars@ == s@,
        decreases to,
    {
        assert(chars@.subrange(from as int, to as int).drop_last()
            == chars@.subrange(from as int, to - 1));
        to = to - 1;
    }
    text_between(&chars, from, to)
}

/// At most `max` characters; what was cut shows as an ellipsis.
pub open spec fn cut(s: Seq<char>, max: nat) -> Seq<char> {
    if s.len() <= max {
        s
    } else {
        s.take(max as int).push('…')
    }
}

/// At most `max` characters of a text, with an ellipsis where more were cut.
pub fn truncate(s: &str, max: usize) -> (r: String)
    ensures
        r@ == cut(s@, max as nat),
{
    let chars: Vec<char> = chars_of(s);
    if chars.len() <= max {
        s.to_owned()
    } else {
        let mut out: String = text_between(&chars, 0, max);
        out.push('…');
        out
    }
}

/// The words of a text with one space between them, whatever white space stood there.
pub open spec fn squeeze(s: Seq<char>) -> Seq<char>
    decreases s.len(),
{
    if s.len() == 0 {
        s
    } else {
        let front = squeeze(s.drop_last());
        if is_white(s.last()) {
            front
        } else if front.len() > 0 && is_white(s[s.len() - 2]) {
            front.push(' ').push(s.last())
        } else {
            front.push(s.last())
        }
    }
}

/// A text on one line: its words with one space between them.
pub fn one_line(s: &str) -> (r: String)
    ensures
        r@ == squeeze(s@),
{
    let chars: Vec<char> = chars_of(s);
    let mut out: String = String::new();
    let mut gap: bool = false;
    let mut i: usize = 0;
    while i < chars.len()
        invariant
            i <= chars@.len(),
            chars@ == s@,
            out@ == squeeze(s@.take(i as int)),
            gap == (i > 0 && is_white(s@[i - 1])),
        decreases chars@.len() - i,
    {
        assert(s@.take(i + 1).drop_last() == s@.take(i as int));
        let c: char = chars[i];
        if c.is_whitespace() {
            gap = true;
        } else {
            if gap && !out.as_str().is_empty() {
                out.push(' ');
            }
            out.push(c);
            gap = false;
        }
        i = i + 1;
    }
    assert(s@.take(s@.len() as int) == s@);
    out
}

/// The ending of a plural, for any count but one.
pub open spec fn plural_s(n: nat) -> Seq<char> {
    if n == 1 {
        ""@
    } else {
        "s"@
    }
}

/// One word or the other, by a count.
pub fn plural(n: u64, one: &'static str, many: &'static str) -> (r: &'static str)
    ensures
        r == if n == 1 {
            one
        } else {
            many
        },
{
    if n == 1 {
        one
    } else {
        many
    }
}

/// Texts one after another, with a separator between them.
pub open spec fn joined(parts: Seq<String>, sep: Seq<char>) -> Seq<char>
    decreases parts.len(),
{
    if parts.len() == 0 {
        Seq::empty()
    } else if parts.len() == 1 {
        parts[0]@
    } else {
        joined(parts.drop_last(), sep) + sep + parts.last()@
    }
}

/// Texts one after another, with a separator between them.
pub fn join(parts: &Vec<String>, sep: &str) -> (r: String)
    ensures
        r@ == joined(parts@, sep@),
{
    let mut out: String = String::new();
    let mut i: usize = 0;
    while i < parts.len()
        invariant
            i <= parts@.len(),
            out@ == joined(parts@.take(i as int), sep@),
        decreases parts@.len() - i,
    {
        proof {
            assert(parts@.take(i + 1).drop_last() =~= parts@.take(i as int));
            assert(parts@.take(i + 1).last() == parts@[i as int]);
        }
        if i > 0 {
            out.append(sep);
        }
        out.append(parts[i].as_str());
        i = i + 1;
    }
    assert(parts@.take(parts@.len() as int) =~= parts@);
    out
}

/// Whether a character is a decimal digit.
pub open spec fn is_digit(c: char) -> bool {
    '0' <= c <= '9'
}

/// The number that decimal digits stand for.
pub open spec fn value_of_digits(s: Seq<char>) -> int
    decreases s.len(),
{
    if s.len() == 0 {
        0
    } else {
        value_of_digits(s.drop_last()) * 10 + (s.last() as int - '0' as int)
    }
}

/// A number without its sign.
pub open spec fn unsigned(s: Seq<char>) -> Seq<char> {
    if s.len() > 0 && s[0] == '+' {
        s.drop_first()
    } else {
        s
    }
}

/// The number a text stands for: decimal digits, which a plus sign may precede, and no more than
/// a machine word holds.
pub open spec fn parsed(s: Seq<char>) -> Option<usize> {
    let d = unsigned(s);
    if d.len() > 0 && (forall|i: int| 0 <= i < d.len() ==> is_digit(#[trigger] d[i]))
        && value_of_digits(d) <= usize::MAX {
        Some(value_of_digits(d) as usize)
    } else {
        None
    }
}

proof fn lemma_value_grows(s: Seq<char>, k: int)
    requires
        0 <= k <= s.len(),
        forall|i: int| 0 <= i < s.len() ==> is_digit(#[trigger] s[i]),
    ensures
        0 <= value_of_digits(s.take(k)) <= value_of_digits(s),
    decreases s.len(),
{
    if k == s.len() {
        assert(s.take(k) =~= s);
        if s.len() > 0 {
            lemma_value_grows(s.drop_last(), k - 1);
            assert(is_digit(s[s.len() - 1]));
        }
    } else {
        lemma_value_grows(s.drop_last(), k);
        assert(s.drop_last().take(k) =~= s.take(k));
        assert(is_digit(s[s.len() - 1]));
    }
}

/// The number a text stands for.
pub fn parse_count(s: &str) -> (r: Option<usize>)
    ensures
        r == parsed(s@),
{
    let chars: Vec<char> = chars_of(s);
    let from: usize = if chars.len() > 0 && chars[0] == '+' {
        1
    } else {
        0
    };
    let ghost d = unsigned(s@);
    assert(d =~= chars@.skip(from as int));
    if from == chars.len() {
        return None;
    }
    let mut acc: usize = 0;
    let mut i: usize = from;
    while i < chars.len()
        invariant
            chars@ == s@,
            from <= 1,
            from <= i <= chars@.len(),
            d == unsigned(s@),
            d == chars@.skip(from as int),
            forall|k: int| 0 <= k < i - from ==> is_digit(#[trigger] d[k]),
            acc == value_of_digits(d.take(i - from)),
        decreases chars@.len() - i,
    {
        let c: char = chars[i];
        assert(d[i - from] == c);
        if !('0' <= c && c <= '9') {
            assert(!is_digit(d[i - from]));
            return None;
        }
        let n: usize = (c as u32 - '0' as u32) as usize;
        proof {
            assert(d.take(i - from + 1).drop_last() =~= d.take(i - from));
            assert(d.take(i - from + 1).last() == c);
            assert(value_of_digits(d.take(i - from + 1)) == acc * 10 + n);
        }
        let wide: u128 = acc as u128 * 10 + n as u128;
        if wide > usize::MAX as u128 {
            proof {
                if forall|k: int| 0 <= k < d.len() ==> is_digit(#[trigger] d[k]) {
                    lemma_value_grows(d, i - from + 1);
                }
            }
            return None;
        }
        acc = wide as usize;
        i = i + 1;
    }
    assert(d.take(d.len() as int) =~= d);
    Some(acc)
}

/// A number is written digit by digit, the least behind the others, and without any nought in front.
pub proof fn a_number_is_written_in_decimal(a: nat, b: nat)
    ensures
        digits(0) == seq!['0'] && digits(1) == seq!['1'] && digits(2) == seq!['2'] && digits(3) == seq!['3'],
        digits(4) == seq!['4'] && digits(5) == seq!['5'] && digits(6) == seq!['6'] && digits(7) == seq!['7'],
        digits(8) == seq!['8'] && digits(9) == seq!['9'],
        a > 0 && b < 10 ==> digits(10 * a + b) == digits(a) + digits(b),
{
    if a > 0 && b < 10 {
        assert((10 * a + b) / 10 == a && (10 * a + b) % 10 == b);
        assert(digits(a) + digits(b) =~= digits(a).push(digit(b)));
    }
}

/// A number that is written is read back as itself, with a plus in front too; nothing else than digits
/// is read, nor no digits.
pub proof fn a_written_number_is_read_back(n: usize, s: Seq<char>, i: int)
    ensures
        parsed(digits(n as nat)) == Some(n),
        parsed(seq!['+'] + digits(n as nat)) == Some(n),
        parsed(Seq::empty()) is None,
        parsed(seq!['+']) is None,
        0 < i < s.len() && !('0' <= s[i] <= '9') ==> parsed(s) is None,
        s.len() > 0 && s[0] != '+' && !('0' <= s[0] <= '9') ==> parsed(s) is None,
{
    let d = digits(n as nat);
    lemma_digits(n as nat);
    assert(d[0] != '+');
    assert((seq!['+'] + d).drop_first() =~= d);
    assert(seq!['+'].drop_first() =~= Seq::<char>::empty());
    if 0 < i < s.len() && !('0' <= s[i] <= '9') {
        let u = unsigned(s);
        if s[0] == '+' {
            assert(u[i - 1] == s[i]);
        } else {
            assert(u[i] == s[i]);
        }
    }
}

proof fn lemma_digits(n: nat)
    ensures
        digits(n).len() > 0,
        forall|i: int| 0 <= i < digits(n).len() ==> '0' <= #[trigger] digits(n)[i] <= '9',
        value_of_digits(digits(n)) == n,
    decreases n,
{
    if n >= 10 {
        lemma_digits(n / 10);
        assert(digits(n).drop_last() =~= digits(n / 10));
    } else {
        assert(digits(n).drop_last() =~= Seq::<char>::empty());
        assert(value_of_digits(Seq::<char>::empty()) == 0);
    }
    assert(digits(n).last() == digit(n % 10));
    assert(digits(n).last() as int - '0' as int == n % 10);
    assert(forall|d: nat| d < 10 ==> '0' <= #[trigger] digit(d) <= '9');
}

/// Noughts in front of a number change nothing of what is read.
pub proof fn leading_noughts_count_nothing(s: Seq<char>)
    ensures
        value_of_digits(seq!['0'] + s) == value_of_digits(s),
    decreases s.len(),
{
    let t = seq!['0'] + s;
    if s.len() == 0 {
        assert(t.drop_last() =~= Seq::<char>::empty());
        assert(value_of_digits(t.drop_last()) == 0);
    } else {
        assert(t.drop_last() =~= seq!['0'] + s.drop_last());
        leading_noughts_count_nothing(s.drop_last());
    }
}

proof fn lemma_trim_front(s: Seq<char>) -> (k: int)
    ensures
        0 <= k <= s.len(),
        trim_front(s) == s.skip(k),
        forall|i: int| 0 <= i < k ==> is_white(#[trigger] s[i]),
        k < s.len() ==> !is_white(s[k]),
    decreases s.len(),
{
    if s.len() > 0 && is_white(s[0]) {
        let rest = s.drop_first();
        let k = lemma_trim_front(rest);
        assert(rest.skip(k) =~= s.skip(k + 1));
        assert forall|i: int| 0 <= i < k + 1 implies is_white(#[trigger] s[i]) by {
            if i > 0 {
                assert(rest[i - 1] == s[i]);
            }
        }
        k + 1
    } else {
        assert(s.skip(0) =~= s);
        0
    }
}

proof fn lemma_trim_back(s: Seq<char>) -> (k: int)
    ensures
        0 <= k <= s.len(),
        trim_back(s) == s.take(k),
        forall|i: int| k <= i < s.len() ==> is_white(#[trigger] s[i]),
        k > 0 ==> !is_white(s[k - 1]),
    decreases s.len(),
{
    if s.len() > 0 && is_white(s.last()) {
        let rest = s.drop_last();
        let k = lemma_trim_back(rest);
        assert(rest.take(k) =~= s.take(k));
        assert forall|i: int| k <= i < s.len() implies is_white(#[trigger] s[i]) by {
            if i < s.len() - 1 {
                assert(rest[i] == s[i]);
            }
        }
        k
    } else {
        assert(s.take(s.len() as int) =~= s);
        s.len() as int
    }
}

/// Trimming takes white space from the two ends and nothing else: what is left stands in the text as it
/// did, and neither begins nor ends with white space.
pub proof fn trimming_takes_white_space_alone(s: Seq<char>)
    ensures
        exists|from: int, to: int|
            0 <= from <= to <= s.len() && trim(s) == #[trigger] s.subrange(from, to) && (forall|i: int|
                0 <= i < from || to <= i < s.len() ==> is_white(#[trigger] s[i])),
        trim(s).len() > 0 ==> !is_white(trim(s)[0]) && !is_white(trim(s).last()),
{
    let from = lemma_trim_front(s);
    let rest = s.skip(from);
    let k = lemma_trim_back(rest);
    let to = from + k;
    assert(rest.take(k) =~= s.subrange(from, to));
    assert forall|i: int| 0 <= i < from || to <= i < s.len() implies is_white(#[trigger] s[i]) by {
        if to <= i {
            assert(rest[i - from] == s[i]);
        }
    }
    if k > 0 {
        assert(trim(s)[0] == s[from]);
        assert(trim(s).last() == rest[k - 1]);
    }
}

/// A text that is cut keeps its front, so many characters of it, and says by one more that there was
/// more; a text that fits is not touched.
pub proof fn a_cut_keeps_the_front(s: Seq<char>, max: nat, i: int)
    ensures
        s.len() <= max ==> cut(s, max) == s,
        s.len() > max ==> cut(s, max).len() == max + 1 && cut(s, max).last() == '…',
        s.len() > max && 0 <= i < max ==> cut(s, max)[i] == s[i],
{
}

/// A text without white space is on one line already.
pub proof fn a_word_is_on_one_line(s: Seq<char>)
    requires
        forall|i: int| 0 <= i < s.len() ==> !is_white(#[trigger] s[i]),
    ensures
        squeeze(s) == s,
    decreases s.len(),
{
    if s.len() > 0 {
        let front = s.drop_last();
        assert forall|i: int| 0 <= i < front.len() implies !is_white(#[trigger] front[i]) by {
            assert(front[i] == s[i]);
        }
        a_word_is_on_one_line(front);
        assert(front.push(s.last()) =~= s);
    }
}

proof fn lemma_squeeze_white(a: Seq<char>, w: Seq<char>)
    requires
        forall|i: int| 0 <= i < w.len() ==> is_white(#[trigger] w[i]),
    ensures
        squeeze(a + w) == squeeze(a),
    decreases w.len(),
{
    if w.len() == 0 {
        assert(a + w =~= a);
    } else {
        let front = w.drop_last();
        assert forall|i: int| 0 <= i < front.len() implies is_white(#[trigger] front[i]) by {
            assert(front[i] == w[i]);
        }
        lemma_squeeze_white(a, front);
        assert((a + w).drop_last() =~= a + front);
        assert(is_white(w[w.len() - 1]));
    }
}

/// White space between two words, however much and of whatever kind, becomes one space; the words stay
/// as they are and in their order.
pub proof fn white_space_becomes_one_space(a: Seq<char>, w: Seq<char>, word: Seq<char>)
    requires
        a.len() > 0,
        !is_white(a.last()),
        w.len() > 0,
        forall|i: int| 0 <= i < w.len() ==> is_white(#[trigger] w[i]),
        word.len() > 0,
        forall|i: int| 0 <= i < word.len() ==> !is_white(#[trigger] word[i]),
    ensures
        squeeze(a + w + word) == squeeze(a) + seq![' '] + word,
        squeeze(w + word) == word,
        squeeze(a + w) == squeeze(a),
    decreases word.len(),
{
    lemma_squeeze_white(a, w);
    lemma_squeeze_white(Seq::empty(), w);
    assert(Seq::<char>::empty() + w =~= w);
    assert(squeeze(a).len() > 0);
    let front = word.drop_last();
    let all = a + w + word;
    assert(all.drop_last() =~= a + w + front);
    assert(all.last() == word.last());
    assert(!is_white(word[word.len() - 1]));
    let other = w + word;
    assert(other.drop_last() =~= w + front);
    if front.len() == 0 {
        assert(a + w + front =~= a + w);
        assert(w + front =~= w);
        assert(all[all.len() - 2] == w[w.len() - 1]);
        assert(is_white(w[w.len() - 1]));
        assert(squeeze(all) =~= squeeze(a) + seq![' '] + word);
        assert(squeeze(other) =~= word);
    } else {
        assert forall|i: int| 0 <= i < front.len() implies !is_white(#[trigger] front[i]) by {
            assert(front[i] == word[i]);
        }
        white_space_becomes_one_space(a, w, front);
        assert(all[all.len() - 2] == word[word.len() - 2]);
        assert(other[other.len() - 2] == word[word.len() - 2]);
        assert(squeeze(all) =~= squeeze(a) + seq![' '] + word);
        assert(squeeze(other) =~= word);
    }
}

/// Texts that are joined follow each other in their order, with the separator between them and nowhere
/// else.
pub proof fn joined_texts_follow_each_other(first: String, rest: Seq<String>, sep: Seq<char>)
    ensures
        joined(seq![first], sep) == first@,
        rest.len() > 0 ==> joined(seq![first] + rest, sep) == first@ + sep + joined(rest, sep),
    decreases rest.len(),
{
    if rest.len() > 0 {
        let all = seq![first] + rest;
        assert(all.drop_last() =~= seq![first] + rest.drop_last());
        assert(all.last() == rest.last());
        if rest.len() == 1 {
            assert(rest.drop_last() =~= Seq::<String>::empty());
            assert(all.drop_last() =~= seq![first]);
            assert(joined(seq![first], sep) == first@);
            assert(joined(rest, sep) == rest[0]@);
            assert(all.len() == 2);
            assert(joined(all, sep) == first@ + sep + rest[0]@);
        } else {
            joined_texts_follow_each_other(first, rest.drop_last(), sep);
            assert(joined(all, sep) =~= first@ + sep + joined(rest, sep));
        }
    }
}

/// One thing is counted without an s, and any other number of them with one.
pub proof fn one_thing_has_no_s(n: nat)
    ensures
        plural_s(1) == ""@,
        n != 1 ==> plural_s(n) == "s"@,
{
}

/// White space is what Unicode calls so: the blank, the breaks of lines and pages, and the spaces of
/// other widths; no letter or digit of ASCII is.
pub proof fn what_is_white_space(c: char)
    ensures
        is_white(' ') && is_white('\t') && is_white('\n') && is_white('\r'),
        is_white('\u{b}') && is_white('\u{c}') && is_white('\u{85}') && is_white('\u{a0}'),
        is_white('\u{1680}') && is_white('\u{2028}') && is_white('\u{2029}') && is_white('\u{202f}'),
        is_white('\u{205f}') && is_white('\u{3000}'),
        '\u{2000}' <= c <= '\u{200a}' ==> is_white(c),
        '!' <= c <= '~' ==> !is_white(c),
        is_white(c) && c as u32 >= 128 ==> c as u32 == 133 || c as u32 == 160 || c as u32 == 5760 || 8192
            <= c as u32 <= 8202 || c as u32 == 8232 || c as u32 == 8233 || c as u32 == 8239 || c as u32
            == 8287 || c as u32 == 12288,
        is_white(c) && (c as u32) < 128 ==> c == ' ' || 9 <= c as u32 <= 13,
{
}

/// A number that is too large to count with is not read.
pub proof fn a_number_that_is_too_large_is_not_read(n: nat)
    requires
        n > usize::MAX,
    ensures
        parsed(digits(n)) is None,
{
    lemma_digits(n);
    assert(digits(n)[0] != '+');
}

} // verus!
