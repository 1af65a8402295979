//! The reply parser: a single-byte-at-a-time reader with one byte of
//! lookahead, decoding multi-line SMTP replies into typed lines.
//!
//! The grammar of one line is `DDD (' '|'-') text CR LF` or `DDD CR LF`,
//! where `DDD` are three ASCII digits forming a recognized status code and
//! `text` runs up to (not including) the first CR LF pair. A reply is a
//! sequence of lines of which exactly the final one uses the space
//! separator. The spec functions below classify a byte sequence as a
//! complete line or reply, as truncated (more bytes are needed: the reader
//! fails with `Network`), or as malformed (`Protocol`).

use vstd::prelude::*;

use crate::protocol::{known_code, spec_status_code, status_code, Line, StatusCode};
use crate::Error;

verus! {

/// Relies on `String::push` of std: appends exactly the given character.
pub assume_specification[ String::push ](s: &mut String, c: char)
    ensures
        final(s)@ == old(s)@.push(c),
;

pub open spec fn is_digit(b: u8) -> bool {
    48 <= b && b <= 57
}

/// The bytes of a reply line's text, read as one character each.
pub open spec fn bytes_as_chars(s: Seq<u8>) -> Seq<char> {
    s.map_values(|b: u8| b as char)
}

/// The index of the first CR LF pair at or after `i`, if any.
pub open spec fn first_crlf_from(t: Seq<u8>, i: int) -> Option<int>
    decreases t.len() - i,
{
    if i + 1 >= t.len() {
        None
    } else if t[i] == 13 && t[i + 1] == 10 {
        Some(i)
    } else {
        first_crlf_from(t, i + 1)
    }
}

pub proof fn lemma_first_crlf_bounds(t: Seq<u8>, i: int)
    requires
        0 <= i,
    ensures
        first_crlf_from(t, i) matches Some(e) ==> i <= e && e + 2 <= t.len() && t[e] == 13 && t[e
            + 1] == 10,
    decreases t.len() - i,
{
    if i + 1 >= t.len() {
    } else if t[i] == 13 && t[i + 1] == 10 {
    } else {
        lemma_first_crlf_bounds(t, i + 1);
    }
}

/// If no CR LF pair starts in `[i, j)` and one starts at `j`, then `j` is
/// the first.
pub proof fn lemma_first_crlf_found(t: Seq<u8>, i: int, j: int)
    requires
        0 <= i <= j,
        j + 1 < t.len(),
        t[j] == 13 && t[j + 1] == 10,
        forall|k: int| i <= k < j ==> !((#[trigger] t[k]) == 13 && t[k + 1] == 10),
    ensures
        first_crlf_from(t, i) == Some(j),
    decreases j - i,
{
    if i < j {
        lemma_first_crlf_found(t, i + 1, j);
    }
}

/// If no CR LF pair starts at any position from `i` on, there is none.
pub proof fn lemma_first_crlf_none(t: Seq<u8>, i: int)
    requires
        0 <= i,
        forall|k: int| i <= k && k + 1 < t.len() ==> !((#[trigger] t[k]) == 13 && t[k + 1] == 10),
    ensures
        first_crlf_from(t, i) is None,
    decreases t.len() - i,
{
    if i + 1 < t.len() {
        lemma_first_crlf_none(t, i + 1);
    }
}

/// Searching from `d + i` in `s` is searching from `i` in `s.skip(d)`.
pub proof fn lemma_first_crlf_shift(s: Seq<u8>, d: int, i: int)
    requires
        0 <= d <= s.len(),
        0 <= i,
    ensures
        first_crlf_from(s, d + i) == match first_crlf_from(s.skip(d), i) {
            Some(e) => Some(e + d),
            None => None,
        },
    decreases s.len() - i - d,
{
    assert(s.skip(d).len() == s.len() - d);
    if d + i + 1 >= s.len() {
    } else {
        assert(s.skip(d)[i] == s[d + i]);
        assert(s.skip(d)[i + 1] == s[d + i + 1]);
        lemma_first_crlf_shift(s, d, i + 1);
    }
}

/// The decoded form of one complete reply line: the 3-digit code, the raw
/// text bytes, the last-line flag, and how many input bytes the line spans.
pub struct SpecLine {
    pub code: u32,
    pub text: Seq<u8>,
    pub last: bool,
    pub len: int,
}

/// How a byte sequence starts: with one complete well-formed line, with a
/// truncated line (reading it fails with `Network`), or malformed
/// (`Protocol`; this includes a complete line whose code is unrecognized).
pub enum LineOutcome {
    Line(SpecLine),
    Truncated,
    Malformed,
}

/// Classify the start of `t` as a reply line. The reader consumes one byte
/// of lookahead beyond what it checks, so a violation in the last available
/// byte is still `Truncated`.
pub open spec fn line_outcome(t: Seq<u8>) -> LineOutcome {
    if t.len() < 2 {
        LineOutcome::Truncated
    } else if !is_digit(t[0]) {
        LineOutcome::Malformed
    } else if t.len() < 3 {
        LineOutcome::Truncated
    } else if !is_digit(t[1]) {
        LineOutcome::Malformed
    } else if t.len() < 4 {
        LineOutcome::Truncated
    } else if !is_digit(t[2]) {
        LineOutcome::Malformed
    } else {
        let code = (((t[0] - 48) as int * 100 + (t[1] - 48) as int * 10 + (t[2] - 48) as int)
            as u32);
        if t[3] == 32 || t[3] == 45 {
            match first_crlf_from(t, 4) {
                Some(e) => if known_code(code) {
                    LineOutcome::Line(
                        SpecLine { code, text: t.subrange(4, e), last: t[3] == 32, len: e + 2 },
                    )
                } else {
                    LineOutcome::Malformed
                },
                None => LineOutcome::Truncated,
            }
        } else if t.len() < 5 {
            LineOutcome::Truncated
        } else if t[3] == 13 && t[4] == 10 {
            if known_code(code) {
                LineOutcome::Line(SpecLine { code, text: Seq::empty(), last: true, len: 5 })
            } else {
                LineOutcome::Malformed
            }
        } else {
            LineOutcome::Malformed
        }
    }
}

pub proof fn lemma_line_outcome_len(t: Seq<u8>)
    ensures
        line_outcome(t) matches LineOutcome::Line(sl) ==> 5 <= sl.len <= t.len(),
{
    if t.len() >= 4 && is_digit(t[0]) && is_digit(t[1]) && is_digit(t[2]) && (t[3] == 32 || t[3]
        == 45) {
        lemma_first_crlf_bounds(t, 4);
    }
}

/// How a byte sequence starts as a whole reply: the decoded lines and total
/// length, or the truncation/malformation met first.
pub enum ReplyOutcome {
    Reply(Seq<SpecLine>, int),
    Truncated,
    Malformed,
}

/// Classify the start of `t` as a complete multi-line reply: lines are read
/// until one carries the last-line separator.
pub open spec fn reply_outcome(t: Seq<u8>) -> ReplyOutcome
    decreases t.len(),
    via reply_outcome_decreases
{
    match line_outcome(t) {
        LineOutcome::Line(sl) => {
            if sl.last {
                ReplyOutcome::Reply(seq![sl], sl.len)
            } else {
                match reply_outcome(t.skip(sl.len)) {
                    ReplyOutcome::Reply(rest, len) => ReplyOutcome::Reply(
                        seq![sl] + rest,
                        sl.len + len,
                    ),
                    ReplyOutcome::Truncated => ReplyOutcome::Truncated,
                    ReplyOutcome::Malformed => ReplyOutcome::Malformed,
                }
            }
        },
        LineOutcome::Truncated => ReplyOutcome::Truncated,
        LineOutcome::Malformed => ReplyOutcome::Malformed,
    }
}

#[via_fn]
proof fn reply_outcome_decreases(t: Seq<u8>) {
    lemma_line_outcome_len(t);
}

/// The decoded `Line` faithfully carries a spec-level line.
pub open spec fn line_matches(line: Line, sl: SpecLine) -> bool {
    &&& spec_status_code(sl.code) == Some(line.code)
    &&& line.text@ == bytes_as_chars(sl.text)
    &&& line.last == sl.last
}

/// The byte reader: an input buffer and the number of bytes consumed so
/// far. The byte most recently consumed is the one byte of lookahead.
pub struct Parser {
    pub input: Vec<u8>,
    pub pos: usize,
}

impl Parser {
    /// The lookahead byte: the byte most recently consumed, or the NUL
    /// placeholder before the first read.
    pub open spec fn lookahead(self) -> u8 {
        if self.pos == 0 {
            0
        } else {
            self.input@[self.pos - 1]
        }
    }

    pub open spec fn wf(self) -> bool {
        self.pos <= self.input@.len()
    }

    pub fn new(input: Vec<u8>) -> (r: Parser)
        ensures
            r.input == input,
            r.pos == 0,
            r.wf(),
    {
        Parser { input, pos: 0 }
    }

    /// Consume one byte: the previous lookahead is returned and the next
    /// input byte becomes the lookahead. Fails with `Network` when the
    /// input is exhausted.
    pub fn recv_char(&mut self) -> (r: Result<u8, Error>)
        requires
            old(self).wf(),
        ensures
            final(self).input == old(self).input,
            final(self).wf(),
            r is Ok <==> old(self).pos < old(self).input@.len(),
            r matches Ok(c) ==> final(self).pos == old(self).pos + 1 && c == old(self).lookahead(),
            r is Err ==> r == Err::<u8, Error>(Error::Network) && *final(self) == *old(self),
    {
        if self.pos >= self.input.len() {
            return Err(Error::Network);
        }
        let c = if self.pos == 0 {
            0
        } else {
            self.input[self.pos - 1]
        };
        self.pos = self.pos + 1;
        Ok(c)
    }

    /// The lookahead byte, without consuming anything.
    pub fn peek_char(&self) -> (r: u8)
        requires
            self.wf(),
        ensures
            r == self.lookahead(),
    {
        if self.pos == 0 {
            0
        } else {
            self.input[self.pos - 1]
        }
    }

    /// Consume one byte and require it to be an ASCII digit; the digit's
    /// value is returned.
    pub fn recv_digit(&mut self) -> (r: Result<u8, Error>)
        requires
            old(self).wf(),
        ensures
            final(self).input == old(self).input,
            final(self).wf(),
            old(self).pos == old(self).input@.len() ==> r == Err::<u8, Error>(Error::Network)
                && *final(self) == *old(self),
            old(self).pos < old(self).input@.len() ==> final(self).pos == old(self).pos + 1 && (
            if is_digit(old(self).lookahead()) {
                r == Ok::<u8, Error>((old(self).lookahead() - 48) as u8)
            } else {
                r == Err::<u8, Error>(Error::Protocol)
            }),
    {
        let c = match self.recv_char() {
            Ok(c) => c,
            Err(e) => {
                return Err(e);
            },
        };
        if c > 57 || c < 48 {
            Err(Error::Protocol)
        } else {
            Ok(c - 48)
        }
    }

    /// Consume one byte and require it to be exactly `exp`.
    pub fn expect_char(&mut self, exp: u8) -> (r: Result<(), Error>)
        requires
            old(self).wf(),
        ensures
            final(self).input == old(self).input,
            final(self).wf(),
            old(self).pos == old(self).input@.len() ==> r == Err::<(), Error>(Error::Network)
                && *final(self) == *old(self),
            old(self).pos < old(self).input@.len() ==> final(self).pos == old(self).pos + 1 && (
            if old(self).lookahead() == exp {
                r is Ok
            } else {
                r == Err::<(), Error>(Error::Protocol)
            }),
    {
        let c = match self.recv_char() {
            Ok(c) => c,
            Err(e) => {
                return Err(e);
            },
        };
        if c == exp {
            Ok(())
        } else {
            Err(Error::Protocol)
        }
    }

    /// Consume the terminating CR and check that LF follows it (the LF
    /// stays in the lookahead, already consumed from the input).
    pub fn expect_end(&mut self) -> (r: Result<(), Error>)
        requires
            old(self).wf(),
        ensures
            final(self).input == old(self).input,
            final(self).wf(),
            old(self).pos == old(self).input@.len() ==> r == Err::<(), Error>(Error::Network)
                && *final(self) == *old(self),
            old(self).pos < old(self).input@.len() ==> final(self).pos == old(self).pos + 1 && (
            if old(self).lookahead() == 13 && old(self).input@[old(self).pos as int] == 10 {
                r is Ok
            } else {
                r == Err::<(), Error>(Error::Protocol)
            }),
    {
        match self.expect_char(13) {
            Ok(_) => {},
            Err(e) => {
                return Err(e);
            },
        }
        if self.peek_char() == 10 {
            Ok(())
        } else {
            Err(Error::Protocol)
        }
    }

    /// Consume text up to (not including) the first CR LF pair; the pair
    /// itself is consumed, its LF remaining as lookahead.
    pub fn recv_text(&mut self) -> (r: Result<String, Error>)
        requires
            old(self).wf(),
            old(self).pos >= 1,
        ensures
            final(self).input == old(self).input,
            final(self).wf(),
            match first_crlf_from(old(self).input@, old(self).pos - 1) {
                Some(e) => r matches Ok(text) && text@ == bytes_as_chars(
                    old(self).input@.subrange(old(self).pos - 1, e),
                ) && final(self).pos == e + 2,
                None => r == Err::<String, Error>(Error::Network),
            },
    {
        let ghost input = self.input@;
        let ghost start = self.pos - 1;
        let mut text = String::new();
        #[verifier::loop_isolation(false)]
        loop
            invariant
                self.wf(),
                self.input == old(self).input,
                start + 1 <= self.pos <= input.len(),
                text@ == bytes_as_chars(input.subrange(start, self.pos - 1)),
                forall|k: int| start <= k < self.pos - 1 ==> !((#[trigger] input[k]) == 13 && input[k + 1] == 10),
            decreases input.len() - self.pos,
        {
            let ghost pos0 = self.pos;
            let c = match self.recv_char() {
                Ok(c) => c,
                Err(e) => {
                    proof {
                        lemma_first_crlf_none(input, start);
                    }
                    return Err(e);
                },
            };
            if c == 13 && self.peek_char() == 10 {
                proof {
                    lemma_first_crlf_found(input, start, pos0 - 1);
                    assert(input.subrange(start, pos0 - 1) == input.subrange(start, self.pos - 2));
                }
                return Ok(text);
            } else {
                text.push(c as char);
                proof {
                    assert(bytes_as_chars(input.subrange(start, self.pos - 1))
                        =~= bytes_as_chars(input.subrange(start, pos0 - 1)).push(
                        input[pos0 - 1] as char,
                    ));
                }
            }
        }
    }

    /// Read one reply line. The outcome mirrors `line_outcome` of the
    /// unconsumed input: a decoded `Line`, `Network` on truncation, or
    /// `Protocol` on a malformed line or unrecognized code.
    pub fn recv_line(&mut self) -> (r: Result<Line, Error>)
        requires
            old(self).wf(),
        ensures
            final(self).input == old(self).input,
            final(self).wf(),
            match line_outcome(old(self).input@.skip(old(self).pos as int)) {
                LineOutcome::Line(sl) => r matches Ok(line) && line_matches(line, sl)
                    && final(self).pos == old(self).pos + sl.len,
                LineOutcome::Truncated => r == Err::<Line, Error>(Error::Network),
                LineOutcome::Malformed => r == Err::<Line, Error>(Error::Protocol),
            },
    {
        let ghost t = self.input@.skip(self.pos as int);
        let ghost pos0 = self.pos as int;
        proof {
            assert forall|k: int| 0 <= k < t.len() implies t[k] == self.input@[pos0 + k] by {}
        }
        match self.recv_char() {
            Ok(_) => {},
            Err(e) => {
                return Err(e);
            },
        }
        let d1 = match self.recv_digit() {
            Ok(d) => d,
            Err(e) => {
                return Err(e);
            },
        };
        let d2 = match self.recv_digit() {
            Ok(d) => d,
            Err(e) => {
                return Err(e);
            },
        };
        let d3 = match self.recv_digit() {
            Ok(d) => d,
            Err(e) => {
                return Err(e);
            },
        };
        let code: u32 = d1 as u32 * 100 + d2 as u32 * 10 + d3 as u32;
        let next = self.peek_char();
        let mut last = true;
        let text = if next == 32 || next == 45 {
            last = next == 32;
            match self.recv_char() {
                Ok(_) => {},
                Err(e) => {
                    proof {
                        lemma_first_crlf_shift(self.input@, pos0, 4);
                    }
                    return Err(e);
                },
            }
            let t0 = match self.recv_text() {
                Ok(t0) => t0,
                Err(e) => {
                    proof {
                        lemma_first_crlf_shift(self.input@, pos0, 4);
                    }
                    return Err(e);
                },
            };
            proof {
                lemma_first_crlf_shift(self.input@, pos0, 4);
                lemma_first_crlf_bounds(t, 4);
                assert(self.input@.subrange(
                    pos0 + 4,
                    first_crlf_from(self.input@, pos0 + 4)->Some_0,
                ) =~= t.subrange(4, first_crlf_from(t, 4)->Some_0));
            }
            t0
        } else {
            match self.expect_end() {
                Ok(_) => {},
                Err(e) => {
                    return Err(e);
                },
            }
            proof {
                assert(bytes_as_chars(Seq::<u8>::empty()) =~= Seq::<char>::empty());
            }
            String::new()
        };
        match status_code(code) {
            Some(sc) => Ok(Line::new(sc, text, last)),
            None => Err(Error::Protocol),
        }
    }

    /// Read a complete reply: lines until one carries the last-line flag.
    /// Exactly the final returned line has `last` set.
    pub fn recv_reply(&mut self) -> (r: Result<Vec<Line>, Error>)
        requires
            old(self).wf(),
        ensures
            final(self).input == old(self).input,
            final(self).wf(),
            match reply_outcome(old(self).input@.skip(old(self).pos as int)) {
                ReplyOutcome::Reply(sls, len) => r matches Ok(lines) && lines@.len() == sls.len()
                    && (forall|i: int|
                    0 <= i < sls.len() ==> line_matches(lines@[i], sls[i])) && final(self).pos
                    == old(self).pos + len,
                ReplyOutcome::Truncated => r == Err::<Vec<Line>, Error>(Error::Network),
                ReplyOutcome::Malformed => r == Err::<Vec<Line>, Error>(Error::Protocol),
            },
            r matches Ok(lines) ==> lines@.len() >= 1 && lines@[lines@.len() - 1].last && (forall|
                i: int,
            |
                0 <= i < lines@.len() - 1 ==> !lines@[i].last),
    {
        let ghost input = self.input@;
        let ghost start = self.pos as int;
        let mut lines: Vec<Line> = Vec::new();
        let first = match self.recv_line() {
            Ok(l) => l,
            Err(e) => {
                return Err(e);
            },
        };
        let mut last = first.last;
        lines.push(first);
        let ghost mut sls: Seq<SpecLine> = seq![
            line_outcome(input.skip(start))->Line_0,
        ];
        proof {
            let sl0 = line_outcome(input.skip(start))->Line_0;
            lemma_line_outcome_len(input.skip(start));
            assert(input.skip(start).skip(sl0.len) =~= input.skip(start + sl0.len));
        }
        #[verifier::loop_isolation(false)]
        while !last
            invariant
                self.wf(),
                self.input == old(self).input,
                start <= self.pos <= input.len(),
                lines@.len() == sls.len() >= 1,
                forall|i: int| 0 <= i < sls.len() ==> line_matches(lines@[i], sls[i]),
                forall|i: int| 0 <= i < sls.len() - 1 ==> !sls[i].last,
                last == sls[sls.len() - 1].last,
                last == lines@[lines@.len() - 1].last,
                !last ==> match reply_outcome(input.skip(self.pos as int)) {
                    ReplyOutcome::Reply(rest, len) => reply_outcome(input.skip(start))
                        == ReplyOutcome::Reply(sls + rest, self.pos - start + len),
                    ReplyOutcome::Truncated => reply_outcome(input.skip(start)) is Truncated,
                    ReplyOutcome::Malformed => reply_outcome(input.skip(start)) is Malformed,
                },
                last ==> reply_outcome(input.skip(start)) == ReplyOutcome::Reply(
                    sls,
                    self.pos - start,
                ),
            decreases input.len() - self.pos,
        {
            let ghost pos0 = self.pos as int;
            let l = match self.recv_line() {
                Ok(l) => l,
                Err(e) => {
                    return Err(e);
                },
            };
            proof {
                lemma_line_outcome_len(input.skip(pos0));
                assert(input.skip(pos0).skip(line_outcome(input.skip(pos0))->Line_0.len)
                    =~= input.skip(self.pos as int));
            }
            last = l.last;
            lines.push(l);
            proof {
                let sl = line_outcome(input.skip(pos0))->Line_0;
                let sls_old = sls;
                sls = sls.push(sl);
                if sl.last {
                    assert(reply_outcome(input.skip(pos0)) == ReplyOutcome::Reply(
                        seq![sl],
                        sl.len,
                    ));
                    assert(sls_old + seq![sl] =~= sls);
                } else {
                    match reply_outcome(input.skip(self.pos as int)) {
                        ReplyOutcome::Reply(rest, len2) => {
                            assert(reply_outcome(input.skip(pos0)) == ReplyOutcome::Reply(
                                seq![sl] + rest,
                                sl.len + len2,
                            ));
                            assert(sls_old + (seq![sl] + rest) =~= sls + rest);
                        },
                        ReplyOutcome::Truncated => {},
                        ReplyOutcome::Malformed => {},
                    }
                }
            }
        }
        proof {
            assert forall|i: int| 0 <= i < lines@.len() - 1 implies !lines@[i].last by {
                assert(line_matches(lines@[i], sls[i]));
                assert(!sls[i].last);
            }
        }
        Ok(lines)
    }
}

/// Parse a complete reply from the start of a byte buffer.
pub fn stream_recv_reply(input: Vec<u8>) -> (r: Result<Vec<Line>, Error>)
    ensures
        match reply_outcome(input@) {
            ReplyOutcome::Reply(sls, len) => r matches Ok(lines) && lines@.len() == sls.len() && (
            forall|i: int| 0 <= i < sls.len() ==> line_matches(lines@[i], sls[i])),
            ReplyOutcome::Truncated => r == Err::<Vec<Line>, Error>(Error::Network),
            ReplyOutcome::Malformed => r == Err::<Vec<Line>, Error>(Error::Protocol),
        },
        r matches Ok(lines) ==> lines@.len() >= 1 && lines@[lines@.len() - 1].last && (forall|
            i: int,
        |
            0 <= i < lines@.len() - 1 ==> !lines@[i].last),
{
    let mut parser = Parser::new(input);
    proof {
        assert(parser.input@.skip(0) =~= parser.input@);
    }
    parser.recv_reply()
}

/// Parse a reply from the start of a byte buffer and hand back only its
/// first line; the rest of the reply must still be well formed, and is
/// drained and discarded.
pub fn stream_recv_line(input: Vec<u8>) -> (r: Result<Line, Error>)
    ensures
        match reply_outcome(input@) {
            ReplyOutcome::Reply(sls, len) => r matches Ok(line) && line_matches(line, sls[0]),
            ReplyOutcome::Truncated => r == Err::<Line, Error>(Error::Network),
            ReplyOutcome::Malformed => r == Err::<Line, Error>(Error::Protocol),
        },
{
    let mut parser = Parser::new(input);
    proof {
        assert(parser.input@.skip(0) =~= parser.input@);
    }
    let ghost t = parser.input@;
    let line = match parser.recv_line() {
        Ok(l) => l,
        Err(e) => {
            return Err(e);
        },
    };
    if !line.last() {
        proof {
            lemma_line_outcome_len(t);
            assert(t.skip(0).skip(line_outcome(t)->Line_0.len) =~= t.skip(
                line_outcome(t)->Line_0.len,
            ));
        }
        match parser.recv_reply() {
            Ok(_) => {},
            Err(e) => {
                return Err(e);
            },
        }
    }
    Ok(line)
}

} // verus!
