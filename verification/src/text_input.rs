use vstd::prelude::*;
use crate::keys::Key;

verus! {

/// A cursor-addressed mutable text buffer, used for every free-form entry
/// field (habit name, frequency, hours). The cursor always sits between
/// 0 and the content length, inclusive.
#[derive(Debug)]
pub struct TextInput {
    pub content: Vec<char>,
    pub cursor_position: usize,
}

/// The spec-level image of a `TextInput`: its text and cursor.
#[verifier::ext_equal]
pub struct TextBufV {
    pub text: Seq<char>,
    pub cursor: int,
}

impl View for TextInput {
    type V = TextBufV;

    open spec fn view(&self) -> TextBufV {
        TextBufV { text: self.content@, cursor: self.cursor_position as int }
    }
}

impl TextInput {
    /// The cursor never points past the end of the content.
    pub open spec fn wf(&self) -> bool {
        self.cursor_position <= self.content.len()
    }
}

/// The buffer contents and cursor after one key is applied.
///
/// Printable characters are inserted at the cursor; `Backspace` removes the
/// character before the cursor, `Delete` the one under it; `Left`, `Right`,
/// `Home` and `End` move the cursor; `Esc` and `BackTab` clear the whole
/// buffer; every other key leaves the buffer untouched.
pub open spec fn buffer_after(b: TextBufV, key: Key) -> TextBufV {
    match key {
        Key::Char(c) => TextBufV { text: b.text.insert(b.cursor, c), cursor: b.cursor + 1 },
        Key::Backspace => if b.cursor > 0 {
            TextBufV { text: b.text.remove(b.cursor - 1), cursor: b.cursor - 1 }
        } else {
            b
        },
        Key::Delete => if b.cursor < b.text.len() {
            TextBufV { text: b.text.remove(b.cursor), cursor: b.cursor }
        } else {
            b
        },
        Key::Left => if b.cursor > 0 {
            TextBufV { text: b.text, cursor: b.cursor - 1 }
        } else {
            b
        },
        Key::Right => if b.cursor < b.text.len() {
            TextBufV { text: b.text, cursor: b.cursor + 1 }
        } else {
            b
        },
        Key::Esc | Key::BackTab => TextBufV { text: Seq::empty(), cursor: 0 },
        Key::Home => TextBufV { text: b.text, cursor: 0 },
        Key::End => TextBufV { text: b.text, cursor: b.text.len() as int },
        _ => b,
    }
}

impl Default for TextInput {
    fn default() -> (r: Self)
        ensures
            r@.text == Seq::<char>::empty(),
            r@.cursor == 0,
            r.wf(),
    {
        TextInput { content: Vec::new(), cursor_position: 0 }
    }
}

impl TextInput {
    /// Apply one key to the buffer.
    pub fn handle_key(&mut self, key: Key)
        requires
            old(self).wf(),
        ensures
            final(self).wf(),
            final(self)@ == buffer_after(old(self)@, key),
    {
        match key {
            Key::Char(c) => {
                self.content.insert(self.cursor_position, c);
                let n = self.content.len();
                assert(self.cursor_position + 1 <= n);
                self.cursor_position = self.cursor_position + 1;
            },
            Key::Backspace => {
                if self.cursor_position > 0 {
                    self.cursor_position = self.cursor_position - 1;
                    self.content.remove(self.cursor_position);
                }
            },
            Key::Delete => {
                if self.cursor_position < self.content.len() {
                    self.content.remove(self.cursor_position);
                }
            },
            Key::Left => {
                if self.cursor_position > 0 {
                    self.cursor_position = self.cursor_position - 1;
                }
            },
            Key::Right => {
                if self.cursor_position < self.content.len() {
                    self.cursor_position = self.cursor_position + 1;
                }
            },
            Key::Esc | Key::BackTab => {
                self.content = Vec::new();
                self.cursor_position = 0;
            },
            Key::Home => {
                self.cursor_position = 0;
            },
            Key::End => {
                self.cursor_position = self.content.len();
            },
            _ => {},
        }
        proof {
            assert(self@ =~= buffer_after(old(self)@, key));
        }
    }
}

/// `c` is an ASCII decimal digit.
pub open spec fn is_ascii_digit(c: char) -> bool {
    48 <= (c as u32) <= 57
}

/// The numeric value of the digit `c`.
pub open spec fn digit_value(c: char) -> int {
    (c as u32) - 48
}

/// The value of a string of digits, most significant first.
pub open spec fn digits_value(s: Seq<char>) -> int
    decreases s.len(),
{
    if s.len() == 0 {
        0
    } else {
        digits_value(s.drop_last()) * 10 + digit_value(s.last())
    }
}

/// Every character of `s` is a digit.
pub open spec fn all_digits(s: Seq<char>) -> bool {
    forall|i: int| 0 <= i < s.len() ==> is_ascii_digit(#[trigger] s[i])
}

/// The digits of a numeral: an optional leading `+` sign is dropped.
pub open spec fn numeral_body(s: Seq<char>) -> Seq<char> {
    if s.len() > 0 && s[0] == '+' {
        s.drop_first()
    } else {
        s
    }
}

/// `s` is a numeral `u32::from_str` would accept, overflow aside: an
/// optional `+` followed by at least one digit.
pub open spec fn is_valid_numeral(s: Seq<char>) -> bool {
    numeral_body(s).len() > 0 && all_digits(numeral_body(s))
}

/// The number a buffer denotes, with the deliberate leniency the entry
/// fields need: anything unparseable as a `u32` — empty, a stray
/// character, a value past `u32::MAX` — counts as 0 rather than as an
/// error.
pub open spec fn parse_or_zero_spec(s: Seq<char>) -> u32 {
    if is_valid_numeral(s) && digits_value(numeral_body(s)) <= u32::MAX {
        digits_value(numeral_body(s)) as u32
    } else {
        0u32
    }
}

/// A digit string's value is non-negative, and no prefix exceeds it.
proof fn lemma_digits_prefix_le(s: Seq<char>, j: int)
    requires
        0 <= j <= s.len(),
        all_digits(s),
    ensures
        0 <= digits_value(s.take(j)) <= digits_value(s),
    decreases s.len() - j,
{
    if j == s.len() {
        assert(s.take(j) =~= s);
        lemma_digits_nonneg(s);
    } else {
        lemma_digits_prefix_le(s, j + 1);
        assert(s.take(j + 1).drop_last() =~= s.take(j));
        assert(s.take(j + 1).last() == s[j]);
        lemma_digits_nonneg(s.take(j));
        assert(digits_value(s.take(j + 1))
            == digits_value(s.take(j)) * 10 + digit_value(s[j]));
    }
}

/// A digit string's value is non-negative.
proof fn lemma_digits_nonneg(s: Seq<char>)
    requires
        all_digits(s),
    ensures
        digits_value(s) >= 0,
    decreases s.len(),
{
    if s.len() > 0 {
        assert(all_digits(s.drop_last())) by {
            assert(forall|i: int| 0 <= i < s.drop_last().len()
                ==> #[trigger] s.drop_last()[i] == s[i]);
        }
        lemma_digits_nonneg(s.drop_last());
        assert(is_ascii_digit(s.last()));
    }
}

/// Parse the buffer as a `u32` the way `str::parse` would, with anything
/// unparseable — including overflow — treated as 0.
pub fn parse_u32_or_zero(chars: &Vec<char>) -> (r: u32)
    ensures
        r == parse_or_zero_spec(chars@),
{
    let n = chars.len();
    let mut start: usize = 0;
    if n > 0 && chars[0] == '+' {
        start = 1;
    }
    let ghost body = numeral_body(chars@);
    proof {
        if n > 0 && chars@[0] == '+' {
            assert(body =~= chars@.skip(1));
        } else {
            assert(body =~= chars@.skip(0));
            assert(body =~= chars@);
        }
    }
    if start >= n {
        // Empty body: not a numeral.
        assert(body.len() == 0);
        return 0;
    }
    let mut acc: u64 = 0;
    let mut i: usize = start;
    proof {
        assert(body.take(0) =~= Seq::<char>::empty());
    }
    while i < n
        invariant
            start <= i <= n,
            n == chars@.len(),
            start <= 1,
            body == numeral_body(chars@),
            body.len() == n - start,
            forall|k: int| 0 <= k < body.len() ==> body[k] == chars@[k + start],
            acc as int == digits_value(body.take(i - start)),
            acc <= u32::MAX,
            forall|k: int| 0 <= k < i - start ==> is_ascii_digit(#[trigger] body[k]),
        decreases n - i,
    {
        let c = chars[i];
        let cu = c as u32;
        if cu < 48 || cu > 57 {
            // A non-digit: the whole buffer is not a numeral.
            assert(body[i - start] == chars@[i as int]);
            assert(!is_ascii_digit(body[i - start]));
            assert(!all_digits(body));
            return 0;
        }
        let ghost j = i - start + 1;
        proof {
            assert(body.take(j).drop_last() =~= body.take(j - 1));
            assert(body.take(j).last() == body[j - 1]);
            assert(body[j - 1] == chars@[i as int]);
            assert(is_ascii_digit(body[j - 1]));
            assert(digit_value(body[j - 1]) == cu - 48);
        }
        acc = acc * 10 + (cu - 48) as u64;
        proof {
            assert(digits_value(body.take(j))
                == digits_value(body.take(j - 1)) * 10 + digit_value(body[j - 1]));
            assert(acc as int == digits_value(body.take(j)));
            assert forall|k: int| 0 <= k < j implies is_ascii_digit(#[trigger] body[k]) by {
                if k == j - 1 {
                    assert(is_ascii_digit(body[j - 1]));
                }
            }
        }
        if acc > 0xFFFF_FFFF {
            // The value overflows a u32: treated as unparseable.
            proof {
                assert(acc as int == digits_value(body.take(j)));
                if all_digits(body) && digits_value(body) <= u32::MAX {
                    lemma_digits_prefix_le(body, j);
                    assert(false);
                }
            }
            return 0;
        }
        i = i + 1;
    }
    proof {
        assert(body.take(n - start) =~= body);
        assert(all_digits(body));
        assert(is_valid_numeral(chars@));
    }
    acc as u32
}

} // verus!
