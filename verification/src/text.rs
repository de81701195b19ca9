//! Text: what the line formats, settings and messages of the project are made of.
use vstd::prelude::*;

verus! {

/// `String::push` appends one character.
pub assume_specification[ std::string::String::push ](s: &mut String, c: char)
    ensures
        final(s)@ == old(s)@.push(c),
;

/// `std::str::from_utf8` succeeds exactly on well-formed UTF-8, and gives the text that the
/// bytes encode.
#[verifier::external_body]
pub(crate) fn from_utf8(bytes: &[u8]) -> (r: Option<&str>)
    ensures
        r is Some <==> vstd::utf8::valid_utf8(bytes@),
        r is Some ==> r->0@ == vstd::utf8::decode_utf8(bytes@),
{
    std::str::from_utf8(bytes).ok()
}

/// The text that bytes stand for where what is not well-formed UTF-8 is replaced.
pub uninterp spec fn lossy_text(bytes: Seq<u8>) -> Seq<char>;

/// `String::from_utf8_lossy`: the text depends on the bytes alone, and well-formed UTF-8 gives
/// the text that it encodes. What stands for other bytes is left open.
#[verifier::external_body]
pub(crate) fn from_utf8_lossy(bytes: &[u8]) -> (r: String)
    ensures
        r@ == lossy_text(bytes@),
        vstd::utf8::valid_utf8(bytes@) ==> r@ == vstd::utf8::decode_utf8(bytes@),
{
    String::from_utf8_lossy(bytes).into_owned()
}

/// Bytes as text: what well-formed UTF-8 encodes, or else the text with replacements.
pub open spec fn shown_text(bytes: Seq<u8>) -> Seq<char> {
    if vstd::utf8::valid_utf8(bytes) {
        vstd::utf8::decode_utf8(bytes)
    } else {
        lossy_text(bytes)
    }
}

// ---- numbers in text ----

/// The decimal digit `d`.
pub open spec fn digit(d: nat) -> char {
    (48 + d) as char
}

/// A number in decimal notation, without leading zeros.
pub open spec fn decimal(n: nat) -> Seq<char>
    decreases n,
{
    if n < 10 {
        seq![digit(n)]
    } else {
        decimal(n / 10).push(digit(n % 10))
    }
}

/// A number in decimal notation, with a minus sign in front where it is negative.
pub open spec fn decimal_int(i: int) -> Seq<char> {
    if i < 0 {
        seq!['-'] + decimal((-i) as nat)
    } else {
        decimal(i as nat)
    }
}

/// The hexadecimal digit `d`, in capitals.
pub open spec fn hex_digit(d: nat) -> char {
    if d < 10 {
        (48 + d) as char
    } else {
        (55 + d) as char
    }
}

/// A number in hexadecimal notation, in capitals, without leading zeros.
pub open spec fn hex(n: nat) -> Seq<char>
    decreases n,
{
    if n < 16 {
        seq![hex_digit(n)]
    } else {
        hex(n / 16).push(hex_digit(n % 16))
    }
}

/// Zeros in front of a text, up to the given width.
pub open spec fn zero_padded(s: Seq<char>, width: nat) -> Seq<char> {
    if s.len() < width {
        Seq::new((width - s.len()) as nat, |i: int| '0') + s
    } else {
        s
    }
}

/// A copy of the text.
pub fn owned(s: &str) -> (r: String)
    ensures
        r@ == s@,
{
    s.to_owned()
}

/// Appends a text.
pub fn push_text(out: &mut String, s: &str)
    ensures
        final(out)@ == old(out)@ + s@,
{
    out.append(s);
}

fn digit_char(d: u64) -> (r: char)
    requires
        d < 10,
    ensures
        r == digit(d as nat),
{
    (48u8 + d as u8) as char
}

fn hex_digit_char(d: u64) -> (r: char)
    requires
        d < 16,
    ensures
        r == hex_digit(d as nat),
{
    if d < 10 {
        (48u8 + d as u8) as char
    } else {
        (55u8 + d as u8) as char
    }
}

/// Appends a number in decimal notation.
pub fn push_decimal(out: &mut String, n: u64)
    ensures
        final(out)@ == old(out)@ + decimal(n as nat),
    decreases n,
{
    let ghost before = out@;
    if n >= 10 {
        push_decimal(out, n / 10);
    }
    out.push(digit_char(n % 10));
    proof {
        assert(out@ =~= before + decimal(n as nat));
    }
}

/// Appends a signed number in decimal notation.
pub fn push_decimal_int(out: &mut String, i: i64)
    ensures
        final(out)@ == old(out)@ + decimal_int(i as int),
{
    let ghost before = out@;
    if i < 0 {
        out.push('-');
        if i == i64::MIN {
            push_decimal(out, 0x8000_0000_0000_0000);
        } else {
            push_decimal(out, (-i) as u64);
        }
        proof {
            assert(out@ =~= before + decimal_int(i as int));
        }
    } else {
        push_decimal(out, i as u64);
    }
}

/// Appends a number in hexadecimal notation.
pub fn push_hex(out: &mut String, n: u64)
    ensures
        final(out)@ == old(out)@ + hex(n as nat),
    decreases n,
{
    let ghost before = out@;
    if n >= 16 {
        push_hex(out, n / 16);
    }
    out.push(hex_digit_char(n % 16));
    proof {
        assert(out@ =~= before + hex(n as nat));
    }
}

/// Appends a text with zeros in front of it, up to the given width.
pub fn push_zero_padded(out: &mut String, s: &str, width: usize)
    ensures
        final(out)@ == old(out)@ + zero_padded(s@, width as nat),
{
    let ghost before = out@;
    let len: usize = s.unicode_len();
    let mut done: usize = len;
    while done < width
        invariant
            len == s@.len(),
            done <= width || done == len,
            done >= len,
            out@ == before + Seq::new((done - len) as nat, |i: int| '0'),
        decreases width - done,
    {
        out.push('0');
        done = done + 1;
        proof {
            assert(out@ =~= before + Seq::new((done - len) as nat, |i: int| '0'));
        }
    }
    out.append(s);
    proof {
        assert(out@ =~= before + zero_padded(s@, width as nat));
    }
}

/// Appends a number in decimal notation, filled up with zeros to the given width.
pub fn push_decimal_padded(out: &mut String, n: u64, width: usize)
    ensures
        final(out)@ == old(out)@ + zero_padded(decimal(n as nat), width as nat),
{
    let mut digits = String::new();
    push_decimal(&mut digits, n);
    proof {
        assert(Seq::<char>::empty() + decimal(n as nat) =~= decimal(n as nat));
    }
    push_zero_padded(out, digits.as_str(), width);
}

/// Appends a number in hexadecimal notation, filled up with zeros to the given width.
pub fn push_hex_padded(out: &mut String, n: u64, width: usize)
    ensures
        final(out)@ == old(out)@ + zero_padded(hex(n as nat), width as nat),
{
    let mut digits = String::new();
    push_hex(&mut digits, n);
    proof {
        assert(Seq::<char>::empty() + hex(n as nat) =~= hex(n as nat));
    }
    push_zero_padded(out, digits.as_str(), width);
}

// ---- text as a sequence of characters ----

/// The characters of the text.
pub fn chars_of(s: &str) -> (r: Vec<char>)
    ensures
        r@ == s@,
{
    let mut out: Vec<char> = Vec::new();
    for c in it: s.chars()
        invariant
            out@ == it.seq().take(it.index() as int),
            it.seq() == s@,
    {
        out.push(c);
        proof {
            assert(out@ =~= it.seq().take(it.index() + 1));
        }
    }
    proof {
        assert(out@ =~= s@);
    }
    out
}

/// The text that the characters make up.
pub fn string_of(chars: &[char]) -> (r: String)
    ensures
        r@ == chars@,
{
    let mut out = String::new();
    for i in 0..chars.len()
        invariant
            out@ == chars@.take(i as int),
    {
        out.push(chars[i]);
        proof {
            assert(out@ =~= chars@.take(i + 1));
        }
    }
    proof {
        assert(out@ =~= chars@);
    }
    out
}

/// Whether the characters make up the given text.
pub fn same_chars(a: &[char], b: &[char]) -> (r: bool)
    ensures
        r == (a@ == b@),
{
    if a.len() != b.len() {
        return false;
    }
    for i in 0..a.len()
        invariant
            a@.len() == b@.len(),
            forall|k: int| 0 <= k < i ==> a@[k] == b@[k],
    {
        if a[i] != b[i] {
            return false;
        }
    }
    proof {
        assert(a@ =~= b@);
    }
    true
}

/// Whether two texts are the same.
pub fn same_text(a: &str, b: &str) -> (r: bool)
    ensures
        r == (a@ == b@),
{
    same_chars(chars_of(a).as_slice(), chars_of(b).as_slice())
}

/// Whether a text begins with another.
pub open spec fn begins_with(s: Seq<char>, prefix: Seq<char>) -> bool {
    prefix.len() <= s.len() && s.take(prefix.len() as int) == prefix
}

pub fn starts_with(s: &str, prefix: &str) -> (r: bool)
    ensures
        r == begins_with(s@, prefix@),
{
    let a: Vec<char> = chars_of(s);
    let b: Vec<char> = chars_of(prefix);
    if b.len() > a.len() {
        return false;
    }
    proof {
        assert(a@.subrange(0, b@.len() as int) =~= a@.take(b@.len() as int));
    }
    same_chars(vstd::slice::slice_subrange(a.as_slice(), 0, b.len()), b.as_slice())
}

/// Whether a text occurs in another at a place.
pub open spec fn occurs_at(s: Seq<char>, part: Seq<char>, at: int) -> bool {
    0 <= at <= s.len() - part.len() && s.subrange(at, at + part.len()) == part
}

/// Whether a text occurs in another.
pub open spec fn has_part(s: Seq<char>, part: Seq<char>) -> bool {
    exists|at: int| #[trigger] occurs_at(s, part, at)
}

pub fn contains(s: &str, part: &str) -> (r: bool)
    ensures
        r == has_part(s@, part@),
{
    let a: Vec<char> = chars_of(s);
    let b: Vec<char> = chars_of(part);
    if b.len() > a.len() {
        return false;
    }
    let last: usize = a.len() - b.len();
    let mut at: usize = 0;
    while at <= last
        invariant
            a.len() <= usize::MAX,
            a@ == s@,
            b@ == part@,
            last == a.len() - b.len(),
            at <= last + 1,
            forall|k: int| 0 <= k < at ==> !(#[trigger] occurs_at(s@, part@, k)),
        decreases last + 1 - at,
    {
        if same_chars(vstd::slice::slice_subrange(a.as_slice(), at, at + b.len()), b.as_slice()) {
            proof {
                assert(occurs_at(s@, part@, at as int));
            }
            return true;
        }
        if at == last {
            return false;
        }
        at = at + 1;
    }
    false
}

/// The characters with the Unicode property White_Space.
pub open spec fn white_space(c: char) -> bool {
    ||| 0x9 <= c as int <= 0xD
    ||| c as int == 0x20
    ||| c as int == 0x85
    ||| c as int == 0xA0
    ||| c as int == 0x1680
    ||| 0x2000 <= c as int <= 0x200A
    ||| c as int == 0x2028
    ||| c as int == 0x2029
    ||| c as int == 0x202F
    ||| c as int == 0x205F
    ||| c as int == 0x3000
}

fn is_white_space(c: char) -> (r: bool)
    ensures
        r == white_space(c),
{
    let code: u32 = c as u32;
    (0x9 <= code && code <= 0xD) || code == 0x20 || code == 0x85 || code == 0xA0 || code == 0x1680
        || (0x2000 <= code && code <= 0x200A) || code == 0x2028 || code == 0x2029 || code == 0x202F
        || code == 0x205F || code == 0x3000
}

/// A text without the white space at its front.
pub open spec fn trimmed_start(s: Seq<char>) -> Seq<char>
    decreases s.len(),
{
    if s.len() > 0 && white_space(s[0]) {
        trimmed_start(s.skip(1))
    } else {
        s
    }
}

/// A text without the white space at its end.
pub open spec fn trimmed_end(s: Seq<char>) -> Seq<char>
    decreases s.len(),
{
    if s.len() > 0 && white_space(s.last()) {
        trimmed_end(s.drop_last())
    } else {
        s
    }
}

/// A text without the white space at either end.
pub open spec fn trimmed(s: Seq<char>) -> Seq<char> {
    trimmed_end(trimmed_start(s))
}

/// Trimming leaves no white space at either end, and changes nothing where there is none.
pub proof fn law_trimmed(s: Seq<char>)
    ensures
        trimmed(s).len() > 0 ==> !white_space(trimmed(s)[0]) && !white_space(trimmed(s).last()),
        trimmed(trimmed(s)) == trimmed(s),
{
    lemma_trimmed_start(s);
    lemma_trimmed_end(trimmed_start(s));
}

proof fn lemma_trimmed_start(s: Seq<char>)
    ensures
        trimmed_start(s).len() > 0 ==> !white_space(trimmed_start(s)[0]),
    decreases s.len(),
{
    if s.len() > 0 && white_space(s[0]) {
        lemma_trimmed_start(s.skip(1));
    }
}

proof fn lemma_trimmed_end(s: Seq<char>)
    ensures
        trimmed_end(s).len() > 0 ==> !white_space(trimmed_end(s).last()) && trimmed_end(s)[0]
            == s[0],
    decreases s.len(),
{
    if s.len() > 0 && white_space(s.last()) {
        lemma_trimmed_end(s.drop_last());
    }
}

/// The part of the characters without white space at either end.
pub fn trim(s: &[char]) -> (r: &[char])
    ensures
        r@ == trimmed(s@),
{
    let len: usize = s.len();
    let mut from: usize = 0;
    proof {
        assert(s@.skip(0) =~= s@);
    }
    while from < len && is_white_space(s[from])
        invariant
            from <= len,
            len == s@.len(),
            trimmed_start(s@) == trimmed_start(s@.skip(from as int)),
        decreases len - from,
    {
        proof {
            assert(s@.skip(from as int).skip(1) =~= s@.skip(from + 1));
        }
        from = from + 1;
    }
    let ghost front = s@.skip(from as int);
    let mut to: usize = len;
    proof {
        assert(s@.subrange(from as int, len as int) =~= front);
    }
    while to > from && is_white_space(s[to - 1])
        invariant
            from <= to <= len,
            len == s@.len(),
            front == s@.skip(from as int),
            trimmed_end(front) == trimmed_end(s@.subrange(from as int, to as int)),
        decreases to - from,
    {
        proof {
            assert(s@.subrange(from as int, to as int).drop_last() =~= s@.subrange(
                from as int,
                to - 1,
            ));
        }
        to = to - 1;
    }
    vstd::slice::slice_subrange(s, from, to)
}

/// Where a character first occurs; the length of the text if it does not.
pub open spec fn first_index(s: Seq<char>, c: char) -> int
    decreases s.len(),
{
    if s.len() == 0 || s[0] == c {
        0
    } else {
        1 + first_index(s.skip(1), c)
    }
}

pub proof fn lemma_first_index_at(s: Seq<char>, c: char, at: int)
    requires
        0 <= at <= s.len(),
        forall|k: int| 0 <= k < at ==> s[k] != c,
        at < s.len() ==> s[at] == c,
    ensures
        first_index(s, c) == at,
    decreases s.len(),
{
    if at > 0 {
        lemma_first_index_at(s.skip(1), c, at - 1);
    }
}

pub proof fn lemma_first_index_bounds(s: Seq<char>, c: char)
    ensures
        0 <= first_index(s, c) <= s.len(),
        first_index(s, c) < s.len() ==> s[first_index(s, c)] == c,
    decreases s.len(),
{
    if s.len() > 0 && s[0] != c {
        lemma_first_index_bounds(s.skip(1), c);
    }
}

/// Where a character first occurs; the length of the text if it does not.
pub fn find_char(s: &[char], c: char) -> (r: usize)
    ensures
        r == first_index(s@, c),
        r <= s@.len(),
{
    let mut i: usize = 0;
    while i < s.len() && s[i] != c
        invariant
            i <= s@.len(),
            forall|k: int| 0 <= k < i ==> s@[k] != c,
        decreases s@.len() - i,
    {
        i = i + 1;
    }
    proof {
        lemma_first_index_at(s@, c, i as int);
    }
    i
}

/// The parts of a text between the occurrences of a separator.
pub open spec fn split_on(s: Seq<char>, sep: char) -> Seq<Seq<char>>
    decreases s.len(),
{
    let at = first_index(s, sep);
    if 0 <= at < s.len() {
        seq![s.take(at)] + split_on(s.skip(at + 1), sep)
    } else {
        seq![s]
    }
}

/// Joining the parts with the separator gives the text again.
pub open spec fn join_with(parts: Seq<Seq<char>>, sep: Seq<char>) -> Seq<char>
    decreases parts.len(),
{
    if parts.len() == 0 {
        Seq::empty()
    } else if parts.len() == 1 {
        parts[0]
    } else {
        parts[0] + sep + join_with(parts.skip(1), sep)
    }
}

/// Splitting loses nothing: the parts, joined with the separator, are the text.
pub proof fn law_split_join(s: Seq<char>, sep: char)
    ensures
        split_on(s, sep).len() >= 1,
        join_with(split_on(s, sep), seq![sep]) == s,
    decreases s.len(),
{
    lemma_first_index_bounds(s, sep);
    let at = first_index(s, sep);
    let parts = split_on(s, sep);
    if at < s.len() {
        law_split_join(s.skip(at + 1), sep);
        assert(parts.skip(1) =~= split_on(s.skip(at + 1), sep));
        assert(s =~= s.take(at) + seq![sep] + s.skip(at + 1));
    }
}

/// How many characters stand before the first white space.
pub open spec fn word_len(s: Seq<char>) -> int
    decreases s.len(),
{
    if s.len() == 0 || white_space(s[0]) {
        0
    } else {
        1 + word_len(s.skip(1))
    }
}

proof fn lemma_word_len_bounds(s: Seq<char>)
    ensures
        0 <= word_len(s) <= s.len(),
    decreases s.len(),
{
    if s.len() > 0 && !white_space(s[0]) {
        lemma_word_len_bounds(s.skip(1));
    }
}

/// The words of a text: its parts between stretches of white space.
pub open spec fn words_of(s: Seq<char>) -> Seq<Seq<char>>
    decreases s.len(),
{
    if s.len() == 0 {
        Seq::empty()
    } else if white_space(s[0]) {
        words_of(s.skip(1))
    } else if 0 < word_len(s) <= s.len() {
        seq![s.take(word_len(s))] + words_of(s.skip(word_len(s)))
    } else {
        Seq::empty()
    }
}

/// The words of a text.
pub fn words(s: &[char]) -> (r: Vec<Vec<char>>)
    ensures
        views(r@) == words_of(s@),
{
    let mut out: Vec<Vec<char>> = Vec::new();
    let mut at: usize = 0;
    proof {
        assert(s@.skip(0) =~= s@);
        assert(views(out@) + words_of(s@) =~= words_of(s@));
    }
    while at < s.len()
        invariant
            at <= s@.len(),
            views(out@) + words_of(s@.skip(at as int)) == words_of(s@),
        decreases s@.len() - at,
    {
        let ghost rest = s@.skip(at as int);
        if is_white_space(s[at]) {
            proof {
                assert(rest.skip(1) =~= s@.skip(at + 1));
            }
            at = at + 1;
        } else {
            let mut end: usize = at + 1;
            proof {
                lemma_word_len_bounds(rest.skip(1));
                assert(rest.skip(1) =~= s@.skip(end as int));
            }
            while end < s.len() && !is_white_space(s[end])
                invariant
                    at < end <= s@.len(),
                    rest == s@.skip(at as int),
                    word_len(rest) == end - at + word_len(s@.skip(end as int)),
                decreases s@.len() - end,
            {
                proof {
                    assert(s@.skip(end as int).skip(1) =~= s@.skip(end + 1));
                }
                end = end + 1;
            }
            let word: Vec<char> = vstd::slice::slice_to_vec(
                vstd::slice::slice_subrange(s, at, end),
            );
            let ghost before = views(out@);
            out.push(word);
            proof {
                assert(word_len(rest) == end - at);
                assert(word@ =~= rest.take(end - at));
                assert(rest.skip(end - at) =~= s@.skip(end as int));
                assert(views(out@) =~= before.push(word@));
                assert(views(out@) + words_of(s@.skip(end as int)) =~= before + (seq![word@]
                    + words_of(s@.skip(end as int))));
            }
            at = end;
        }
    }
    proof {
        assert(s@.skip(s@.len() as int) =~= Seq::<char>::empty());
        assert(views(out@) + Seq::<Seq<char>>::empty() =~= views(out@));
    }
    out
}

/// A text without a separator is one part; a part in front of a separator stays by itself.
pub proof fn lemma_split_front(part: Seq<char>, sep: char, rest: Seq<char>)
    requires
        forall|i: int| 0 <= i < part.len() ==> part[i] != sep,
    ensures
        split_on(part, sep) == seq![part],
        split_on(part + seq![sep] + rest, sep) == seq![part] + split_on(rest, sep),
{
    lemma_first_index_at(part, sep, part.len() as int);
    let whole = part + seq![sep] + rest;
    lemma_first_index_at(whole, sep, part.len() as int);
    assert(whole.take(part.len() as int) =~= part);
    assert(whole.skip(part.len() as int + 1) =~= rest);
}

proof fn lemma_word_len_at(s: Seq<char>, n: int)
    requires
        0 <= n <= s.len(),
        forall|i: int| 0 <= i < n ==> !white_space(s[i]),
        n < s.len() ==> white_space(s[n]),
    ensures
        word_len(s) == n,
    decreases n,
{
    if n > 0 {
        assert(forall|i: int| 0 <= i < n - 1 ==> s.skip(1)[i] == s[i + 1]);
        lemma_word_len_at(s.skip(1), n - 1);
    }
}

/// Two words with a space between them.
pub proof fn lemma_two_words(a: Seq<char>, b: Seq<char>)
    requires
        a.len() > 0,
        b.len() > 0,
        forall|i: int| 0 <= i < a.len() ==> !white_space(a[i]),
        forall|i: int| 0 <= i < b.len() ==> !white_space(b[i]),
    ensures
        words_of(a + seq![' '] + b) == seq![a, b],
{
    let s = a + seq![' '] + b;
    lemma_word_len_at(s, a.len() as int);
    lemma_word_len_at(b, b.len() as int);
    assert(s.take(a.len() as int) =~= a);
    assert(s.skip(a.len() as int).skip(1) =~= b);
    assert(b.take(b.len() as int) =~= b);
    assert(words_of(b.skip(b.len() as int)) =~= Seq::<Seq<char>>::empty());
    assert(words_of(b) =~= seq![b]);
    assert(words_of(s.skip(a.len() as int)) == words_of(b));
    assert(words_of(s) =~= seq![a, b]);
}

/// A text that neither begins nor ends with white space is trimmed already.
pub proof fn lemma_trimmed_already(s: Seq<char>)
    requires
        s.len() > 0 ==> !white_space(s[0]) && !white_space(s.last()),
    ensures
        trimmed(s) == s,
{
}

/// The views of a list of character lists.
pub open spec fn views(parts: Seq<Vec<char>>) -> Seq<Seq<char>> {
    parts.map_values(|part: Vec<char>| part@)
}

/// The parts between the occurrences of a separator.
pub fn split(s: &[char], sep: char) -> (r: Vec<Vec<char>>)
    ensures
        views(r@) == split_on(s@, sep),
        r@.len() >= 1,
{
    let mut out: Vec<Vec<char>> = Vec::new();
    let mut rest: &[char] = s;
    proof {
        assert(views(out@) + split_on(s@, sep) =~= split_on(s@, sep));
    }
    loop
        invariant
            views(out@) + split_on(rest@, sep) == split_on(s@, sep),
        decreases rest@.len(),
    {
        let at: usize = find_char(rest, sep);
        let part: Vec<char> = vstd::slice::slice_to_vec(vstd::slice::slice_subrange(rest, 0, at));
        let ghost before = views(out@);
        out.push(part);
        proof {
            assert(part@ =~= rest@.take(at as int));
            assert(views(out@) =~= before.push(rest@.take(at as int)));
        }
        if at == rest.len() {
            proof {
                assert(rest@.take(at as int) =~= rest@);
                assert(views(out@) =~= split_on(s@, sep));
            }
            return out;
        }
        let ghost here = rest@;
        rest = vstd::slice::slice_subrange(rest, at + 1, rest.len());
        proof {
            assert(rest@ =~= here.skip(at + 1));
            assert(views(out@) + split_on(rest@, sep) =~= before + (seq![here.take(at as int)]
                + split_on(rest@, sep)));
        }
    }
}

/// The parts, joined with the separator.
pub fn join(parts: &Vec<String>, sep: &str) -> (r: String)
    ensures
        r@ == join_with(parts@.map_values(|s: String| s@), sep@),
{
    let ghost all = parts@.map_values(|s: String| s@);
    let mut out = String::new();
    if parts.len() == 0 {
        return out;
    }
    push_text(&mut out, parts[0].as_str());
    proof {
        assert(out@ =~= all[0]);
        assert(all.skip(0) =~= all);
        lemma_join_front(all, sep@);
    }
    for i in 1..parts.len()
        invariant
            all == parts@.map_values(|s: String| s@),
            parts@.len() > 0,
            out@ + join_tail(all.skip(i as int), sep@) == join_with(all, sep@),
    {
        let ghost before = out@;
        push_text(&mut out, sep);
        push_text(&mut out, parts[i].as_str());
        proof {
            assert(all.skip(i as int).skip(1) =~= all.skip(i + 1));
            assert(all.skip(i as int)[0] == parts@[i as int]@);
            assert(out@ + join_tail(all.skip(i + 1), sep@) =~= before + (sep@
                + parts@[i as int]@ + join_tail(all.skip(i + 1), sep@)));
        }
    }
    proof {
        assert(all.skip(parts@.len() as int) =~= Seq::<Seq<char>>::empty());
        assert(out@ + Seq::<char>::empty() =~= out@);
    }
    out
}

/// Parts that follow another, each behind a separator.
spec fn join_tail(parts: Seq<Seq<char>>, sep: Seq<char>) -> Seq<char>
    decreases parts.len(),
{
    if parts.len() == 0 {
        Seq::empty()
    } else {
        sep + parts[0] + join_tail(parts.skip(1), sep)
    }
}

proof fn lemma_join_front(parts: Seq<Seq<char>>, sep: Seq<char>)
    requires
        parts.len() > 0,
    ensures
        join_with(parts, sep) == parts[0] + join_tail(parts.skip(1), sep),
    decreases parts.len(),
{
    if parts.len() == 1 {
        assert(parts.skip(1) =~= Seq::<Seq<char>>::empty());
        assert(parts[0] + Seq::<char>::empty() =~= parts[0]);
    } else {
        lemma_join_front(parts.skip(1), sep);
        assert(parts.skip(1).skip(1) =~= parts.skip(2));
        assert(parts[0] + sep + (parts[1] + join_tail(parts.skip(2), sep)) =~= parts[0] + (sep
            + parts[1] + join_tail(parts.skip(2), sep)));
    }
}

/// A character with ASCII capitals made small.
pub open spec fn lower(c: char) -> char {
    if 'A' <= c && c <= 'Z' {
        (c as nat + 32) as char
    } else {
        c
    }
}

/// A text with ASCII capitals made small.
pub open spec fn lowered(s: Seq<char>) -> Seq<char> {
    s.map_values(|c: char| lower(c))
}

fn lower_char(c: char) -> (r: char)
    ensures
        r == lower(c),
{
    if 'A' <= c && c <= 'Z' {
        (c as u8 + 32) as char
    } else {
        c
    }
}

/// The characters with ASCII capitals made small.
pub fn to_lower(s: &[char]) -> (r: Vec<char>)
    ensures
        r@ == lowered(s@),
{
    let mut out: Vec<char> = Vec::new();
    for i in 0..s.len()
        invariant
            out@ == lowered(s@).take(i as int),
    {
        out.push(lower_char(s[i]));
        proof {
            assert(out@ =~= lowered(s@).take(i + 1));
        }
    }
    proof {
        assert(out@ =~= lowered(s@));
    }
    out
}

/// Whether the characters are the given word, capitals and small letters aside. The word is
/// written in small letters.
pub fn is_word(s: &[char], word: &str) -> (r: bool)
    ensures
        r == (lowered(s@) == word@),
{
    same_chars(to_lower(s).as_slice(), chars_of(word).as_slice())
}

// ---- numbers out of text ----

/// Whether a character is a decimal digit.
pub open spec fn is_digit(c: char) -> bool {
    '0' <= c && c <= '9'
}

/// Whether all characters are decimal digits.
pub open spec fn all_digits(s: Seq<char>) -> bool {
    forall|i: int| 0 <= i < s.len() ==> is_digit(#[trigger] s[i])
}

/// The number that decimal digits spell.
pub open spec fn digits_value(s: Seq<char>) -> nat
    decreases s.len(),
{
    if s.len() == 0 {
        0
    } else {
        digits_value(s.drop_last()) * 10 + (s.last() as nat - 48) as nat
    }
}

/// The number that a text spells, if it is one: digits, with a plus sign in front or not,
/// that spell no more than `max`.
pub open spec fn parsed_unsigned(s: Seq<char>, max: nat) -> Option<nat> {
    let digits = if s.len() > 0 && s[0] == '+' {
        s.skip(1)
    } else {
        s
    };
    if digits.len() > 0 && all_digits(digits) && digits_value(digits) <= max {
        Some(digits_value(digits))
    } else {
        None
    }
}

/// The number that a text spells, if it is one that fits an `i64`: digits, with a sign in
/// front or not.
pub open spec fn parsed_signed(s: Seq<char>) -> Option<int> {
    let digits = if s.len() > 0 && (s[0] == '+' || s[0] == '-') {
        s.skip(1)
    } else {
        s
    };
    let value = if s.len() > 0 && s[0] == '-' {
        -(digits_value(digits) as int)
    } else {
        digits_value(digits) as int
    };
    if digits.len() > 0 && all_digits(digits) && i64::MIN <= value <= i64::MAX {
        Some(value)
    } else {
        None
    }
}

proof fn lemma_digits_value_grows(s: Seq<char>, n: int)
    requires
        0 <= n <= s.len(),
        all_digits(s),
    ensures
        digits_value(s.take(n)) <= digits_value(s),
    decreases s.len(),
{
    if n < s.len() {
        assert(all_digits(s.drop_last()));
        lemma_digits_value_grows(s.drop_last(), n);
        assert(s.drop_last().take(n) =~= s.take(n));
    } else {
        assert(s.take(n) =~= s);
    }
}

/// Why a text spells no whole number.
#[derive(Clone, Copy, Debug, PartialEq, Eq, Structural)]
pub enum IntFault {
    /// There is nothing to read.
    Empty,
    /// A character is no digit, or a sign stands alone.
    InvalidDigit,
    /// The number is too large.
    PosOverflow,
    /// The number is too far below zero.
    NegOverflow,
}

impl IntFault {
    pub open spec fn text(self) -> Seq<char> {
        match self {
            IntFault::Empty => "cannot parse integer from empty string"@,
            IntFault::InvalidDigit => "invalid digit found in string"@,
            IntFault::PosOverflow => "number too large to fit in target type"@,
            IntFault::NegOverflow => "number too small to fit in target type"@,
        }
    }

    pub fn as_str(self) -> (r: &'static str)
        ensures
            r@ == self.text(),
    {
        match self {
            IntFault::Empty => "cannot parse integer from empty string",
            IntFault::InvalidDigit => "invalid digit found in string",
            IntFault::PosOverflow => "number too large to fit in target type",
            IntFault::NegOverflow => "number too small to fit in target type",
        }
    }
}

/// The first fault in a run of digits, from the left: a character that is no digit, or one
/// with which the number is more than `max`.
pub open spec fn digits_fault(s: Seq<char>, max: nat, over: IntFault) -> Option<IntFault>
    decreases s.len(),
{
    if s.len() == 0 {
        None
    } else if digits_fault(s.drop_last(), max, over) is Some {
        digits_fault(s.drop_last(), max, over)
    } else if !is_digit(s.last()) {
        Some(IntFault::InvalidDigit)
    } else if digits_value(s) > max {
        Some(over)
    } else {
        None
    }
}

/// Why a text spells no unsigned number up to `max`, if it spells none.
pub open spec fn unsigned_fault(s: Seq<char>, max: nat) -> Option<IntFault> {
    if s.len() == 0 {
        Some(IntFault::Empty)
    } else if s[0] != '+' {
        digits_fault(s, max, IntFault::PosOverflow)
    } else if s.len() == 1 {
        Some(IntFault::InvalidDigit)
    } else {
        digits_fault(s.skip(1), max, IntFault::PosOverflow)
    }
}

/// Why a text spells no number that fits an `i64`, if it spells none.
pub open spec fn signed_fault(s: Seq<char>) -> Option<IntFault> {
    if s.len() == 0 {
        Some(IntFault::Empty)
    } else if s[0] != '+' && s[0] != '-' {
        digits_fault(s, i64::MAX as nat, IntFault::PosOverflow)
    } else if s.len() == 1 {
        Some(IntFault::InvalidDigit)
    } else if s[0] == '+' {
        digits_fault(s.skip(1), i64::MAX as nat, IntFault::PosOverflow)
    } else {
        digits_fault(s.skip(1), -(i64::MIN as int) as nat, IntFault::NegOverflow)
    }
}

/// A fault in the front of a run of digits is the fault of the whole run.
proof fn lemma_first_fault(s: Seq<char>, n: int, max: nat, over: IntFault)
    requires
        0 <= n <= s.len(),
        digits_fault(s.take(n), max, over) is Some,
    ensures
        digits_fault(s, max, over) == digits_fault(s.take(n), max, over),
    decreases s.len(),
{
    if n < s.len() {
        assert(s.drop_last().take(n) =~= s.take(n));
        lemma_first_fault(s.drop_last(), n, max, over);
    } else {
        assert(s.take(n) =~= s);
    }
}

proof fn lemma_digits_fault(s: Seq<char>, max: nat, over: IntFault)
    ensures
        digits_fault(s, max, over) is None <==> all_digits(s) && digits_value(s) <= max,
    decreases s.len(),
{
    if s.len() > 0 {
        let front = s.drop_last();
        lemma_digits_fault(front, max, over);
        if all_digits(s) {
            lemma_digits_value_grows(s, s.len() - 1);
            assert(s.take(s.len() - 1) =~= front);
        }
        if all_digits(front) && is_digit(s.last()) {
            assert forall|i: int| 0 <= i < s.len() implies is_digit(#[trigger] s[i]) by {
                if i < front.len() {
                    assert(is_digit(front[i]));
                }
            }
        }
        if all_digits(s) {
            assert forall|i: int| 0 <= i < front.len() implies is_digit(#[trigger] front[i]) by {
                assert(is_digit(s[i]));
            }
            assert(is_digit(s[s.len() - 1]));
        }
    }
}

/// A text spells a number, or there is a fault in it, and never both.
pub proof fn law_number_or_fault(s: Seq<char>, max: nat)
    ensures
        parsed_unsigned(s, max) is Some <==> unsigned_fault(s, max) is None,
        parsed_signed(s) is Some <==> signed_fault(s) is None,
{
    lemma_digits_fault(s, max, IntFault::PosOverflow);
    lemma_digits_fault(s, i64::MAX as nat, IntFault::PosOverflow);
    if s.len() > 0 {
        lemma_digits_fault(s.skip(1), max, IntFault::PosOverflow);
        lemma_digits_fault(s.skip(1), i64::MAX as nat, IntFault::PosOverflow);
        lemma_digits_fault(s.skip(1), -(i64::MIN as int) as nat, IntFault::NegOverflow);
    }
}

/// The number that digits spell, or the first fault in them.
fn read_digits(s: &[char], max: u64, over: IntFault) -> (r: Result<u64, IntFault>)
    requires
        s@.len() > 0,
    ensures
        match r {
            Ok(v) => {
                &&& digits_fault(s@, max as nat, over) is None
                &&& all_digits(s@) && digits_value(s@) == v && v <= max
            },
            Err(fault) => digits_fault(s@, max as nat, over) == Some(fault),
        },
{
    let mut value: u64 = 0;
    for i in 0..s.len()
        invariant
            value == digits_value(s@.take(i as int)),
            digits_fault(s@.take(i as int), max as nat, over) is None,
            value <= max,
    {
        let c: char = s[i];
        proof {
            assert(s@.take(i + 1).drop_last() =~= s@.take(i as int));
        }
        if c < '0' || c > '9' {
            proof {
                assert(!is_digit(s@.take(i + 1).last()));
                lemma_first_fault(s@, i + 1, max as nat, over);
            }
            return Err(IntFault::InvalidDigit);
        }
        let d: u64 = (c as u32 - 48) as u64;
        if value > max / 10 || d > max - value * 10 {
            proof {
                lemma_first_fault(s@, i + 1, max as nat, over);
            }
            return Err(over);
        }
        value = value * 10 + d;
    }
    proof {
        assert(s@.take(s@.len() as int) =~= s@);
        lemma_digits_fault(s@, max as nat, over);
    }
    Ok(value)
}

/// Reads an unsigned number no larger than `max`, or says why there is none.
pub fn read_unsigned(s: &[char], max: u64) -> (r: Result<u64, IntFault>)
    ensures
        match r {
            Ok(v) => parsed_unsigned(s@, max as nat) == Some(v as nat),
            Err(fault) => {
                &&& parsed_unsigned(s@, max as nat) is None
                &&& unsigned_fault(s@, max as nat) == Some(fault)
            },
        },
{
    proof {
        law_number_or_fault(s@, max as nat);
    }
    if s.len() == 0 {
        return Err(IntFault::Empty);
    }
    if s[0] != '+' {
        return read_digits(s, max, IntFault::PosOverflow);
    }
    if s.len() == 1 {
        return Err(IntFault::InvalidDigit);
    }
    let digits: &[char] = vstd::slice::slice_subrange(s, 1, s.len());
    proof {
        assert(digits@ =~= s@.skip(1));
    }
    read_digits(digits, max, IntFault::PosOverflow)
}

/// Reads an unsigned number no larger than `max`.
pub fn parse_unsigned(s: &[char], max: u64) -> (r: Option<u64>)
    ensures
        match r {
            Some(v) => parsed_unsigned(s@, max as nat) == Some(v as nat),
            None => parsed_unsigned(s@, max as nat) is None,
        },
{
    match read_unsigned(s, max) {
        Ok(v) => Some(v),
        Err(_) => None,
    }
}

/// Reads a signed number, or says why there is none.
pub fn read_signed(s: &[char]) -> (r: Result<i64, IntFault>)
    ensures
        match r {
            Ok(v) => parsed_signed(s@) == Some(v as int),
            Err(fault) => parsed_signed(s@) is None && signed_fault(s@) == Some(fault),
        },
{
    proof {
        law_number_or_fault(s@, 0);
    }
    if s.len() == 0 {
        return Err(IntFault::Empty);
    }
    if s[0] != '+' && s[0] != '-' {
        return match read_digits(s, 0x7FFF_FFFF_FFFF_FFFF, IntFault::PosOverflow) {
            Ok(v) => Ok(v as i64),
            Err(fault) => Err(fault),
        };
    }
    if s.len() == 1 {
        return Err(IntFault::InvalidDigit);
    }
    let digits: &[char] = vstd::slice::slice_subrange(s, 1, s.len());
    proof {
        assert(digits@ =~= s@.skip(1));
    }
    if s[0] == '+' {
        match read_digits(digits, 0x7FFF_FFFF_FFFF_FFFF, IntFault::PosOverflow) {
            Ok(v) => Ok(v as i64),
            Err(fault) => Err(fault),
        }
    } else {
        match read_digits(digits, 0x8000_0000_0000_0000, IntFault::NegOverflow) {
            Ok(v) => if v == 0x8000_0000_0000_0000 {
                Ok(i64::MIN)
            } else {
                Ok(-(v as i64))
            },
            Err(fault) => Err(fault),
        }
    }
}

/// Reads a signed number.
pub fn parse_signed(s: &[char]) -> (r: Option<i64>)
    ensures
        match r {
            Some(v) => parsed_signed(s@) == Some(v as int),
            None => parsed_signed(s@) is None,
        },
{
    match read_signed(s) {
        Ok(v) => Some(v),
        Err(_) => None,
    }
}

/// The notation of a number is read back as that number.
pub proof fn law_decimal_round_trip(n: nat, max: nat)
    requires
        n <= max,
    ensures
        parsed_unsigned(decimal(n), max) == Some(n),
{
    lemma_decimal_digits(n);
    assert(decimal(n)[0] != '+');
}

proof fn lemma_leading_zeros(zeros: nat, s: Seq<char>)
    requires
        all_digits(s),
    ensures
        all_digits(Seq::new(zeros, |i: int| '0') + s),
        digits_value(Seq::new(zeros, |i: int| '0') + s) == digits_value(s),
    decreases zeros + s.len(),
{
    let front = Seq::new(zeros, |i: int| '0');
    let whole = front + s;
    if s.len() > 0 {
        lemma_leading_zeros(zeros, s.drop_last());
        assert(whole.drop_last() =~= front + s.drop_last());
    } else if zeros > 0 {
        lemma_leading_zeros((zeros - 1) as nat, s);
        assert(whole.drop_last() =~= Seq::new((zeros - 1) as nat, |i: int| '0') + s);
    }
}

/// A number in decimal notation is read back as that number, however many zeros are put in
/// front.
pub proof fn law_padded_round_trip(n: nat, width: nat)
    requires
        n <= i64::MAX,
    ensures
        zero_padded(decimal(n), width).len() > 0,
        all_digits(zero_padded(decimal(n), width)),
        parsed_signed(zero_padded(decimal(n), width)) == Some(n as int),
{
    let s = decimal(n);
    lemma_decimal_digits(n);
    if s.len() < width {
        lemma_leading_zeros((width - s.len()) as nat, s);
    }
    let padded = zero_padded(s, width);
    assert(is_digit(padded[0]));
}

pub proof fn lemma_decimal_digits(n: nat)
    ensures
        decimal(n).len() > 0,
        all_digits(decimal(n)),
        forall|i: int| 0 <= i < decimal(n).len() ==> is_digit(#[trigger] decimal(n)[i]),

        digits_value(decimal(n)) == n,
    decreases n,
{
    reveal_with_fuel(digits_value, 2);
    if n < 10 {
        assert(decimal(n).drop_last() =~= Seq::<char>::empty());
    } else {
        lemma_decimal_digits(n / 10);
        assert(decimal(n).drop_last() =~= decimal(n / 10));
    }
}

/// The notation of a signed number is read back as that number.
pub proof fn law_decimal_int_round_trip(i: int)
    requires
        i64::MIN <= i <= i64::MAX,
    ensures
        parsed_signed(decimal_int(i)) == Some(i),
{
    if i < 0 {
        lemma_decimal_digits((-i) as nat);
        assert(decimal_int(i).skip(1) =~= decimal((-i) as nat));
    } else {
        lemma_decimal_digits(i as nat);
        assert(decimal_int(i)[0] != '+' && decimal_int(i)[0] != '-');
    }
}

// ---- floating-point notation ----

/// A text without a sign in front.
pub open spec fn unsigned_part(s: Seq<char>) -> Seq<char> {
    if s.len() > 0 && (s[0] == '+' || s[0] == '-') {
        s.skip(1)
    } else {
        s
    }
}

/// Digits with a point in them or not, at least one digit in all.
pub open spec fn is_mantissa(s: Seq<char>) -> bool {
    let dot = first_index(s, '.');
    if dot < s.len() {
        s.len() > 1 && all_digits(s.take(dot)) && all_digits(s.skip(dot + 1))
    } else {
        s.len() > 0 && all_digits(s)
    }
}

/// A mantissa, with an exponent or not. The text is in small letters.
pub open spec fn is_scientific(s: Seq<char>) -> bool {
    let e = first_index(s, 'e');
    if e < s.len() {
        is_mantissa(s.take(e)) && unsigned_part(s.skip(e + 1)).len() > 0 && all_digits(
            unsigned_part(s.skip(e + 1)),
        )
    } else {
        is_mantissa(s)
    }
}

/// The notation of a floating-point number: a sign or none, then `inf`, `infinity`, `nan` or
/// a decimal number with an exponent or none, in capitals or small letters.
pub open spec fn is_float(s: Seq<char>) -> bool {
    let t = lowered(unsigned_part(s));
    t == "inf"@ || t == "infinity"@ || t == "nan"@ || is_scientific(t)
}

/// Whether a character can stand in the notation of a floating-point number.
pub open spec fn is_float_char(c: char) -> bool {
    is_digit(c) || ('a' <= c && c <= 'z') || ('A' <= c && c <= 'Z') || c == '.' || c == '+' || c
        == '-'
}

/// The notation of a floating-point number is not empty, and holds no separators or spaces.
pub proof fn lemma_float_chars(s: Seq<char>)
    requires
        is_float(s),
    ensures
        s.len() > 0,
        forall|i: int| 0 <= i < s.len() ==> is_float_char(#[trigger] s[i]),
{
    let u = unsigned_part(s);
    let t = lowered(u);
    reveal_strlit("inf");
    reveal_strlit("infinity");
    reveal_strlit("nan");
    assert forall|i: int| 0 <= i < t.len() implies is_float_char(#[trigger] t[i]) by {
        if is_scientific(t) {
            let e = first_index(t, 'e');
            lemma_first_index_bounds(t, 'e');
            let m = t.take(e);
            let x = t.skip(e + 1);
            if i < e {
                if e == t.len() {
                    assert(m =~= t);
                }
                lemma_mantissa_chars(m);
                assert(m[i] == t[i]);
            } else if i > e {
                assert(x[i - e - 1] == t[i]);
                if i - e - 1 > 0 || x == unsigned_part(x) {
                    let ux = unsigned_part(x);
                    let k = i - e - 1 - (x.len() - ux.len());
                    assert(ux[k] == x[i - e - 1]);
                }
            }
        }
    }
    assert(t.len() > 0) by {
        if is_scientific(t) {
            lemma_first_index_bounds(t, 'e');
        }
    }
    assert forall|i: int| 0 <= i < s.len() implies is_float_char(#[trigger] s[i]) by {
        let k = i - (s.len() - u.len());
        if k >= 0 {
            assert(u[k] == s[i]);
            assert(t[k] == lower(u[k]));
            assert(is_float_char(t[k]));
        }
    }
}

proof fn lemma_mantissa_chars(m: Seq<char>)
    requires
        is_mantissa(m),
    ensures
        forall|i: int| 0 <= i < m.len() ==> is_float_char(#[trigger] m[i]),
{
    let dot = first_index(m, '.');
    lemma_first_index_bounds(m, '.');
    assert forall|i: int| 0 <= i < m.len() implies is_float_char(#[trigger] m[i]) by {
        if i < dot && dot < m.len() {
            assert(m.take(dot)[i] == m[i]);
        } else if i > dot {
            assert(m.skip(dot + 1)[i - dot - 1] == m[i]);
        }
    }
}

fn are_digits(s: &[char]) -> (r: bool)
    ensures
        r == all_digits(s@),
{
    for i in 0..s.len()
        invariant
            forall|k: int| 0 <= k < i ==> is_digit(#[trigger] s@[k]),
    {
        if s[i] < '0' || s[i] > '9' {
            proof {
                assert(!is_digit(s@[i as int]));
            }
            return false;
        }
    }
    true
}

fn skip_sign(s: &[char]) -> (r: &[char])
    ensures
        r@ == unsigned_part(s@),
{
    if s.len() > 0 && (s[0] == '+' || s[0] == '-') {
        let r: &[char] = vstd::slice::slice_subrange(s, 1, s.len());
        proof {
            assert(r@ =~= s@.skip(1));
        }
        r
    } else {
        s
    }
}

fn check_mantissa(s: &[char]) -> (r: bool)
    ensures
        r == is_mantissa(s@),
{
    let dot: usize = find_char(s, '.');
    if dot < s.len() {
        let head: &[char] = vstd::slice::slice_subrange(s, 0, dot);
        let tail: &[char] = vstd::slice::slice_subrange(s, dot + 1, s.len());
        proof {
            assert(head@ =~= s@.take(dot as int));
            assert(tail@ =~= s@.skip(dot + 1));
        }
        s.len() > 1 && are_digits(head) && are_digits(tail)
    } else {
        s.len() > 0 && are_digits(s)
    }
}

/// Why a text is not the notation of a floating-point number.
#[derive(Clone, Copy, Debug, PartialEq, Eq, Structural)]
pub enum FloatFault {
    /// There is nothing to read.
    Empty,
    /// There is something else.
    Invalid,
}

impl FloatFault {
    pub open spec fn text(self) -> Seq<char> {
        match self {
            FloatFault::Empty => "cannot parse float from empty string"@,
            FloatFault::Invalid => "invalid float literal"@,
        }
    }

    pub fn as_str(self) -> (r: &'static str)
        ensures
            r@ == self.text(),
    {
        match self {
            FloatFault::Empty => "cannot parse float from empty string",
            FloatFault::Invalid => "invalid float literal",
        }
    }
}

/// Why a text is not the notation of a floating-point number, if it is not.
pub open spec fn float_fault(s: Seq<char>) -> Option<FloatFault> {
    if s.len() == 0 {
        Some(FloatFault::Empty)
    } else if !is_float(s) {
        Some(FloatFault::Invalid)
    } else {
        None
    }
}

/// Checks the notation of a floating-point number, or says why it is none.
pub fn read_float(s: &[char]) -> (r: Result<(), FloatFault>)
    ensures
        match r {
            Ok(_) => float_fault(s@) is None && is_float(s@),
            Err(fault) => float_fault(s@) == Some(fault) && !is_float(s@),
        },
{
    if s.len() == 0 {
        proof {
            lemma_empty_is_no_float();
            assert(s@ =~= Seq::<char>::empty());
        }
        Err(FloatFault::Empty)
    } else if check_float(s) {
        Ok(())
    } else {
        Err(FloatFault::Invalid)
    }
}

proof fn lemma_empty_is_no_float()
    ensures
        !is_float(Seq::<char>::empty()),
{
    let nothing = Seq::<char>::empty();
    reveal_strlit("inf");
    reveal_strlit("infinity");
    reveal_strlit("nan");
    assert(lowered(nothing) =~= nothing);
}

/// Whether the characters are the notation of a floating-point number.
pub fn check_float(s: &[char]) -> (r: bool)
    ensures
        r == is_float(s@),
{
    let lowered: Vec<char> = to_lower(skip_sign(s));
    let t: &[char] = lowered.as_slice();
    if same_chars(t, chars_of("inf").as_slice()) || same_chars(t, chars_of("infinity").as_slice())
        || same_chars(t, chars_of("nan").as_slice()) {
        return true;
    }
    let e: usize = find_char(t, 'e');
    if e < t.len() {
        let mantissa: &[char] = vstd::slice::slice_subrange(t, 0, e);
        let exponent: &[char] = vstd::slice::slice_subrange(t, e + 1, t.len());
        proof {
            assert(mantissa@ =~= t@.take(e as int));
            assert(exponent@ =~= t@.skip(e + 1));
        }
        let digits: &[char] = skip_sign(exponent);
        check_mantissa(mantissa) && digits.len() > 0 && are_digits(digits)
    } else {
        check_mantissa(t)
    }
}

// ---- what holds of all texts ----

/// Digits are written as usual: 0 to 9, and A to F behind them where sixteen are needed.
pub proof fn law_digits(d: nat)
    ensures
        d < 10 ==> digit(d) == "0123456789"@[d as int],
        d < 16 ==> hex_digit(d) == "0123456789ABCDEF"@[d as int],
{
    reveal_strlit("0123456789");
    reveal_strlit("0123456789ABCDEF");
}

/// A byte is written with two hexadecimal digits, the higher first.
pub proof fn law_byte_in_hex(b: u8)
    ensures
        zero_padded(hex(b as nat), 2) == seq![
            hex_digit((b / 16) as nat),
            hex_digit((b % 16) as nat),
        ],
        b >= 16 ==> hex(b as nat) == seq![hex_digit((b / 16) as nat), hex_digit((b % 16) as nat)],
        b < 16 ==> hex(b as nat) == seq![hex_digit(b as nat)],
{
    reveal_with_fuel(hex, 3);
    assert(hex_digit(0) == '0');
    assert(zero_padded(hex(b as nat), 2) =~= seq![
        hex_digit((b / 16) as nat),
        hex_digit((b % 16) as nat),
    ]);
}

/// What is filled up is as long as it is to be, or as long as it was; zeros are put in front,
/// and what was there stays behind them.
pub proof fn law_zero_padded(s: Seq<char>, width: nat, i: int)
    ensures
        zero_padded(s, width).len() == if s.len() < width {
            width
        } else {
            s.len()
        },
        zero_padded(s, width).skip(zero_padded(s, width).len() - s.len()) == s,
        0 <= i < zero_padded(s, width).len() - s.len() ==> zero_padded(s, width)[i] == '0',
{
    assert(zero_padded(s, width).skip(zero_padded(s, width).len() - s.len()) =~= s);
}

/// Blanks, tabs and line ends are white space; no character from the exclamation mark to the
/// tilde is.
pub proof fn law_white_space(c: char)
    ensures
        white_space(' '),
        white_space('\t'),
        white_space('\n'),
        white_space('\r'),
        '!' <= c && c <= '~' ==> !white_space(c),
{
}

proof fn lemma_trimmed_start_part(s: Seq<char>) -> (a: int)
    ensures
        0 <= a <= s.len(),
        trimmed_start(s) == s.skip(a),
        forall|i: int| 0 <= i < a ==> white_space(#[trigger] s[i]),
    decreases s.len(),
{
    if s.len() > 0 && white_space(s[0]) {
        let rest = s.skip(1);
        let a = lemma_trimmed_start_part(rest);
        assert(rest.skip(a) =~= s.skip(a + 1));
        assert forall|i: int| 0 <= i < a + 1 implies white_space(#[trigger] s[i]) by {
            if i > 0 {
                assert(rest[i - 1] == s[i]);
            }
        }
        a + 1
    } else {
        assert(s.skip(0) =~= s);
        0
    }
}

proof fn lemma_trimmed_end_part(s: Seq<char>) -> (b: int)
    ensures
        0 <= b <= s.len(),
        trimmed_end(s) == s.take(b),
        forall|i: int| b <= i < s.len() ==> white_space(#[trigger] s[i]),
    decreases s.len(),
{
    if s.len() > 0 && white_space(s.last()) {
        let front = s.drop_last();
        let b = lemma_trimmed_end_part(front);
        assert(front.take(b) =~= s.take(b));
        assert forall|i: int| b <= i < s.len() implies white_space(#[trigger] s[i]) by {
            if i < front.len() {
                assert(front[i] == s[i]);
            }
        }
        b
    } else {
        assert(s.take(s.len() as int) =~= s);
        s.len() as int
    }
}

/// What is trimmed is a part of the text, and only white space is left out before and behind
/// it.
pub proof fn law_trimmed_part(s: Seq<char>)
    ensures
        exists|a: int, b: int|
            {
                &&& 0 <= a <= b <= s.len()
                &&& trimmed(s) == #[trigger] s.subrange(a, b)
                &&& forall|i: int| 0 <= i < a ==> white_space(#[trigger] s[i])
                &&& forall|i: int| b <= i < s.len() ==> white_space(#[trigger] s[i])
            },
{
    let a = lemma_trimmed_start_part(s);
    let rest = s.skip(a);
    let n = lemma_trimmed_end_part(rest);
    assert(rest.take(n) =~= s.subrange(a, a + n));
    assert forall|i: int| a + n <= i < s.len() implies white_space(#[trigger] s[i]) by {
        assert(rest[i - a] == s[i]);
    }
}

/// The first place of a character: it stands there and not before; where it does not occur at
/// all, the place is behind the text.
pub proof fn law_first_index(s: Seq<char>, c: char, i: int)
    ensures
        0 <= first_index(s, c) <= s.len(),
        first_index(s, c) < s.len() ==> s[first_index(s, c)] == c,
        0 <= i < first_index(s, c) ==> s[i] != c,
    decreases s.len(),
{
    if s.len() > 0 && s[0] != c {
        law_first_index(s.skip(1), c, i - 1);
        if 0 < i < first_index(s, c) {
            assert(s.skip(1)[i - 1] == s[i]);
        }
    }
}

/// No part of a text that was split holds the separator.
pub proof fn law_split_parts(s: Seq<char>, sep: char, k: int, i: int)
    requires
        0 <= k < split_on(s, sep).len(),
        0 <= i < split_on(s, sep)[k].len(),
    ensures
        split_on(s, sep)[k][i] != sep,
    decreases s.len(),
{
    let at = first_index(s, sep);
    law_first_index(s, sep, i);
    if 0 <= at < s.len() {
        let rest = s.skip(at + 1);
        if k > 0 {
            assert(split_on(s, sep)[k] == split_on(rest, sep)[k - 1]);
            law_split_parts(rest, sep, k - 1, i);
        }
    }
}

/// Words hold no white space, and are not empty.
pub proof fn law_words(s: Seq<char>, k: int, i: int)
    requires
        0 <= k < words_of(s).len(),
    ensures
        words_of(s)[k].len() > 0,
        0 <= i < words_of(s)[k].len() ==> !white_space(words_of(s)[k][i]),
    decreases s.len(),
{
    if s.len() > 0 {
        if white_space(s[0]) {
            law_words(s.skip(1), k, i);
        } else if 0 < word_len(s) <= s.len() {
            lemma_word_len(s, i);
            if k > 0 {
                let rest = s.skip(word_len(s));
                assert(words_of(s)[k] == words_of(rest)[k - 1]);
                law_words(rest, k - 1, i);
            }
        }
    }
}

proof fn lemma_word_len(s: Seq<char>, i: int)
    ensures
        0 <= i < word_len(s) && i < s.len() ==> !white_space(s[i]),
    decreases s.len(),
{
    if s.len() > 0 && !white_space(s[0]) && i > 0 {
        lemma_word_len(s.skip(1), i - 1);
        if i < s.len() {
            assert(s.skip(1)[i - 1] == s[i]);
        }
    }
}

/// The capitals A to Z are made small, letter by letter, and nothing else is changed.
pub proof fn law_lowered(s: Seq<char>, i: int)
    requires
        0 <= i < s.len(),
    ensures
        lowered(s).len() == s.len(),
        'A' <= s[i] && s[i] <= 'Z' ==> lowered(s)[i] == "abcdefghijklmnopqrstuvwxyz"@[s[i] as int
            - 65],
        s[i] < 'A' || 'Z' < s[i] ==> lowered(s)[i] == s[i],
{
    reveal_strlit("abcdefghijklmnopqrstuvwxyz");
}

/// Why a number cannot be read: nothing stands there, a character is no digit, or the number is
/// out of range. The words for it are those of the usual reading of numbers.
pub proof fn law_number_faults(s: Seq<char>, max: nat)
    ensures
        unsigned_fault(s, max) == Some(IntFault::Empty) <==> s.len() == 0,
        signed_fault(s) == Some(IntFault::Empty) <==> s.len() == 0,
        all_digits(s) && s.len() > 0 && digits_value(s) > max ==> unsigned_fault(s, max) == Some(
            IntFault::PosOverflow,
        ),
        unsigned_fault(s, max) != Some(IntFault::NegOverflow),
        float_fault(s) is None <==> s.len() > 0 && is_float(s),
        s.len() == 0 ==> float_fault(s) == Some(FloatFault::Empty),
        s.len() > 0 && !is_float(s) ==> float_fault(s) == Some(FloatFault::Invalid),
        IntFault::Empty.text() == "cannot parse integer from empty string"@,
        IntFault::InvalidDigit.text() == "invalid digit found in string"@,
        IntFault::PosOverflow.text() == "number too large to fit in target type"@,
        IntFault::NegOverflow.text() == "number too small to fit in target type"@,
        FloatFault::Empty.text() == "cannot parse float from empty string"@,
        FloatFault::Invalid.text() == "invalid float literal"@,
{
    lemma_digits_fault_kind(s, max, IntFault::PosOverflow);
    lemma_digits_fault_kind(s.skip(1), max, IntFault::PosOverflow);
    lemma_digits_fault_kind(s, i64::MAX as nat, IntFault::PosOverflow);
    lemma_digits_fault_kind(s.skip(1), i64::MAX as nat, IntFault::PosOverflow);
    lemma_digits_fault_kind(s.skip(1), -(i64::MIN as int) as nat, IntFault::NegOverflow);
    if all_digits(s) && s.len() > 0 {
        assert(is_digit(s[0]));
    }
}

proof fn lemma_digits_fault_kind(s: Seq<char>, max: nat, over: IntFault)
    ensures
        digits_fault(s, max, over) matches Some(fault) ==> fault == IntFault::InvalidDigit || fault
            == over,
        all_digits(s) ==> digits_fault(s, max, over) != Some(IntFault::InvalidDigit) || over
            == IntFault::InvalidDigit,
        all_digits(s) && digits_value(s) > max ==> digits_fault(s, max, over) == Some(over),
    decreases s.len(),
{
    if s.len() > 0 {
        let front = s.drop_last();
        lemma_digits_fault_kind(front, max, over);
        if all_digits(s) {
            assert forall|i: int| 0 <= i < front.len() implies is_digit(#[trigger] front[i]) by {
                assert(is_digit(s[i]));
            }
            assert(is_digit(s[s.len() - 1]));
        }
    }
}

proof fn lemma_digits_hold_no_letter(s: Seq<char>, c: char)
    requires
        all_digits(s),
        !is_digit(c),
    ensures
        first_index(s, c) == s.len(),
        lowered(s) == s,
{
    law_first_index(s, c, 0);
    if first_index(s, c) < s.len() {
        assert(is_digit(s[first_index(s, c)]));
    }
    assert(lowered(s) =~= s) by {
        assert forall|i: int| 0 <= i < s.len() implies lowered(s)[i] == s[i] by {
            assert(is_digit(s[i]));
        }
    }
}

/// Digits are a number, and so are digits with a sign; nothing at all is none, nor is a sign or
/// a point alone.
pub proof fn law_float_notation(s: Seq<char>)
    ensures
        all_digits(s) && s.len() > 0 ==> is_float(s) && is_float(seq!['-'] + s) && is_float(
            seq!['+'] + s,
        ),
        !is_float(Seq::empty()),
        !is_float(seq!['-']),
        !is_float(seq!['.']),
{
    reveal_strlit("inf");
    reveal_strlit("infinity");
    reveal_strlit("nan");
    assert("inf"@.len() == 3 && "infinity"@.len() == 8 && "nan"@.len() == 3);
    let empty = Seq::<char>::empty();
    assert(unsigned_part(empty) =~= empty && lowered(empty) =~= empty);
    assert(unsigned_part(seq!['-']) =~= empty);
    assert(unsigned_part(seq!['.']) =~= seq!['.'] && lowered(seq!['.']) =~= seq!['.']);
    law_first_index(seq!['.'], 'e', 0);
    law_first_index(empty, 'e', 0);
    law_first_index(empty, '.', 0);
    if all_digits(s) && s.len() > 0 {
        assert(is_digit(s[0]));
        lemma_digits_hold_no_letter(s, 'e');
        lemma_digits_hold_no_letter(s, '.');
        assert((seq!['-'] + s).skip(1) =~= s);
        assert((seq!['+'] + s).skip(1) =~= s);
        assert(is_mantissa(s));
    }
}

proof fn lemma_no_such_digit(s: Seq<char>, c: char)
    requires
        all_digits(s),
        !is_digit(c),
    ensures
        forall|k: int| 0 <= k < s.len() ==> s[k] != c,
{
    assert forall|k: int| 0 <= k < s.len() implies s[k] != c by {
        assert(is_digit(s[k]));
    }
}

/// Digits around a point are a number where there is a digit at all.
pub proof fn law_point_notation(a: Seq<char>, b: Seq<char>)
    requires
        all_digits(a),
        all_digits(b),
    ensures
        is_float(a + seq!['.'] + b) <==> a.len() + b.len() > 0,
{
    let s = a + seq!['.'] + b;
    let n = a.len() as int;
    lemma_no_such_digit(a, '.');
    lemma_no_such_digit(a, 'e');
    lemma_no_such_digit(b, 'e');
    lemma_digits_hold_no_letter(a, 'e');
    lemma_digits_hold_no_letter(b, 'e');
    reveal_strlit("inf");
    reveal_strlit("infinity");
    reveal_strlit("nan");
    assert(s[n] == '.');
    if n > 0 {
        assert(is_digit(a[0]));
        assert(s[0] == a[0]);
    }
    assert(unsigned_part(s) == s);
    assert(lowered(s) =~= s) by {
        assert forall|i: int| 0 <= i < s.len() implies lowered(s)[i] == s[i] by {
            if i < n {
                assert(s[i] == lowered(a)[i]);
            } else if i > n {
                assert(s[i] == lowered(b)[i - n - 1]);
            }
        }
    }
    assert(s != "inf"@ && s != "infinity"@ && s != "nan"@) by {
        assert("inf"@[0] == 'i' && "infinity"@[0] == 'i' && "nan"@[0] == 'n');
        assert(s[0] == '.' || is_digit(s[0]));
    }
    lemma_first_index_at(s, '.', n);
    assert forall|k: int| 0 <= k < s.len() implies s[k] != 'e' by {
        if k < n {
            assert(s[k] == a[k]);
        } else if k > n {
            assert(s[k] == b[k - n - 1]);
        }
    }
    lemma_first_index_at(s, 'e', s.len() as int);
    assert(s.take(n) =~= a);
    assert(s.skip(n + 1) =~= b);
}

/// Digits behind an e, or a capital E, are an exponent: a number stands there where there are
/// digits on both sides.
pub proof fn law_exponent_notation(a: Seq<char>, b: Seq<char>, e: char)
    requires
        all_digits(a),
        all_digits(b),
        e == 'e' || e == 'E',
    ensures
        is_float(a + seq![e] + b) <==> a.len() > 0 && b.len() > 0,
{
    let s = a + seq![e] + b;
    let t = a + seq!['e'] + b;
    let n = a.len() as int;
    lemma_no_such_digit(a, 'e');
    lemma_no_such_digit(a, '.');
    lemma_digits_hold_no_letter(a, '.');
    lemma_digits_hold_no_letter(b, '.');
    reveal_strlit("inf");
    reveal_strlit("infinity");
    reveal_strlit("nan");
    assert(s[n] == e);
    if n > 0 {
        assert(is_digit(a[0]));
        assert(s[0] == a[0]);
    }
    if b.len() > 0 {
        assert(is_digit(b[0]));
    }
    assert(unsigned_part(s) == s);
    assert(lowered(s) =~= t) by {
        assert forall|i: int| 0 <= i < s.len() implies lowered(s)[i] == t[i] by {
            if i < n {
                assert(t[i] == lowered(a)[i]);
            } else if i > n {
                assert(t[i] == lowered(b)[i - n - 1]);
            }
        }
    }
    assert(t != "inf"@ && t != "infinity"@ && t != "nan"@) by {
        assert("inf"@[0] == 'i' && "infinity"@[0] == 'i' && "nan"@[0] == 'n');
        assert(t[0] == 'e' || is_digit(t[0]));
    }
    lemma_first_index_at(t, 'e', n);
    assert(t.take(n) =~= a);
    assert(t.skip(n + 1) =~= b);
    assert(unsigned_part(b) == b);
}

/// The words inf, infinity and nan stand for numbers, in whatever case, with or without a sign.
pub proof fn law_number_words(s: Seq<char>)
    requires
        lowered(s) == "inf"@ || lowered(s) == "infinity"@ || lowered(s) == "nan"@,
    ensures
        is_float(s),
        is_float(seq!['-'] + s),
        is_float(seq!['+'] + s),
{
    reveal_strlit("inf");
    reveal_strlit("infinity");
    reveal_strlit("nan");
    assert(lowered(s)[0] == 'i' || lowered(s)[0] == 'n');
    assert(s.len() == lowered(s).len());
    assert(lowered(s)[0] == lower(s[0]));
    assert(unsigned_part(s) == s);
    assert((seq!['-'] + s).skip(1) =~= s);
    assert((seq!['+'] + s).skip(1) =~= s);
}

proof fn lemma_word_in_front(a: Seq<char>, rest: Seq<char>)
    requires
        forall|i: int| 0 <= i < a.len() ==> !white_space(#[trigger] a[i]),
        rest.len() > 0 ==> white_space(rest[0]),
    ensures
        word_len(a + rest) == a.len(),
    decreases a.len(),
{
    let s = a + rest;
    if a.len() > 0 {
        let b = a.skip(1);
        assert forall|i: int| 0 <= i < b.len() implies !white_space(#[trigger] b[i]) by {
            assert(b[i] == a[i + 1]);
        }
        lemma_word_in_front(b, rest);
        assert(s.skip(1) =~= b + rest);
        assert(s[0] == a[0]);
    } else {
        assert(s =~= rest);
    }
}

/// White space in front of a text adds no word; characters without white space, up to white
/// space or the end, are one word, and the words behind them follow.
pub proof fn law_words_follow(a: Seq<char>, c: char, rest: Seq<char>)
    requires
        a.len() > 0,
        forall|i: int| 0 <= i < a.len() ==> !white_space(#[trigger] a[i]),
        white_space(c),
    ensures
        words_of(Seq::empty()).len() == 0,
        words_of(seq![c] + rest) == words_of(rest),
        words_of(a) == seq![a],
        words_of(a + seq![c] + rest) == seq![a] + words_of(rest),
{
    let empty = Seq::<char>::empty();
    assert((seq![c] + rest).skip(1) =~= rest);
    assert((seq![c] + rest)[0] == c);
    lemma_word_in_front(a, empty);
    assert(a + empty =~= a);
    let n = a.len() as int;
    assert(a.take(n) =~= a);
    assert(a.skip(n) =~= empty);
    assert(words_of(empty) =~= Seq::<Seq<char>>::empty());
    assert(!white_space(a[0]));
    assert(words_of(a) == seq![a.take(n)] + words_of(a.skip(n)));
    assert(words_of(a) =~= seq![a]);
    let behind = seq![c] + rest;
    let s = a + seq![c] + rest;
    assert(s =~= a + behind);
    lemma_word_in_front(a, behind);
    assert(s.take(n) =~= a);
    assert(s.skip(n) =~= behind);
    assert(s[0] == a[0]);
}

/// A text has a part exactly where the part stands between something before and something
/// behind it.
pub proof fn law_has_part(a: Seq<char>, part: Seq<char>, b: Seq<char>, s: Seq<char>)
    ensures
        has_part(a + part + b, part),
        has_part(s, part) ==> part.len() <= s.len(),
        has_part(s, part) ==> exists|at: int|
            0 <= at <= s.len() - part.len() && #[trigger] s.subrange(at, at + part.len()) == part,
{
    let whole = a + part + b;
    let at = a.len() as int;
    assert(whole.subrange(at, at + part.len()) =~= part);
    assert(occurs_at(whole, part, at));
}

} // verus!
