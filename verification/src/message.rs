//! The mail record and the body encodings the client computes itself: the
//! dot-stuffed body text and the minimal header block used when the server
//! does not advertise 8BITMIME. (MIME serialization of attachments is an
//! external collaborator and happens outside the library.)

use vstd::prelude::*;

verus! {

/// One outbound mail: addresses, display names, subject, body text and
/// attachment paths.
#[derive(Clone)]
pub struct Mail {
    pub subject: String,
    pub from: String,
    pub from_name: Option<String>,
    pub to: String,
    pub to_name: Option<String>,
    pub text: String,
    pub attachments: Vec<String>,
}

/// The dot-stuffing scanner state: at a line start, mid-line, or just after
/// a CR (a following LF opens a new line).
pub open spec fn stuff_step(st: int, c: char) -> int {
    if c == '\r' {
        2
    } else if c == '\n' && st == 2 {
        0
    } else {
        1
    }
}

/// Dot-stuff `s` starting in scanner state `st`: every line-leading `.` is
/// doubled; lines are opened by the start of the body and by each CR LF.
pub open spec fn spec_stuff_at(s: Seq<char>, st: int) -> Seq<char>
    decreases s.len(),
{
    if s.len() == 0 {
        Seq::empty()
    } else {
        (if st == 0 && s[0] == '.' {
            seq!['.', '.']
        } else {
            seq![s[0]]
        }) + spec_stuff_at(s.skip(1), stuff_step(st, s[0]))
    }
}

/// The dot-stuffed form of a body: every body line beginning with `.` is
/// transmitted with a leading extra `.`.
pub open spec fn spec_stuff(s: Seq<char>) -> Seq<char> {
    spec_stuff_at(s, 0)
}

/// `p` is a line start of `o` in scanner context `st` (the state in which
/// `o`'s first character was emitted): the very start of the body, the
/// position after a CR LF pair, or position 1 when a CR directly preceded
/// `o` and `o` opens with the matching LF.
pub open spec fn line_start_in(o: Seq<char>, st: int, p: int) -> bool {
    ||| (p == 0 && st == 0)
    ||| (p >= 2 && o[p - 2] == '\r' && o[p - 1] == '\n')
    ||| (p == 1 && st == 2 && o[0] == '\n')
}

/// No line of a dot-stuffed body begins with a single bare dot: a dot at a
/// line start is always followed by another dot.
pub proof fn lemma_stuff_at_no_bare_dot(s: Seq<char>, st: int, p: int)
    requires
        0 <= p < spec_stuff_at(s, st).len(),
        line_start_in(spec_stuff_at(s, st), st, p),
        spec_stuff_at(s, st)[p] == '.',
    ensures
        p + 1 < spec_stuff_at(s, st).len(),
        spec_stuff_at(s, st)[p + 1] == '.',
    decreases s.len(),
{
    let o = spec_stuff_at(s, st);
    let st2 = stuff_step(st, s[0]);
    let o2 = spec_stuff_at(s.skip(1), st2);
    if st == 0 && s[0] == '.' {
        if p == 0 {
        } else {
            // line starts after the doubled dot lie inside the tail
            let rel = p - 2;
            assert(o == seq!['.', '.'] + o2);
            assert(o[p] == o2[rel]);
            assert(line_start_in(o2, st2, rel));
            lemma_stuff_at_no_bare_dot(s.skip(1), st2, rel);
        }
    } else {
        assert(o == seq![s[0]] + o2);
        if p == 0 {
            // a line start at 0 needs st == 0, and then s[0] == '.' was the
            // other branch
            assert(false);
        } else {
            let rel = p - 1;
            assert(o[p] == o2[rel]);
            assert(line_start_in(o2, st2, rel));
            lemma_stuff_at_no_bare_dot(s.skip(1), st2, rel);
        }
    }
}

/// The guarantee of the send-time transformation: in `spec_stuff(s)` no
/// line begins with a single bare dot; the terminating dot line is
/// appended outside this transformation.
pub proof fn lemma_stuff_no_bare_dot(s: Seq<char>, p: int)
    requires
        0 <= p < spec_stuff(s).len(),
        p == 0 || (p >= 2 && spec_stuff(s)[p - 2] == '\r' && spec_stuff(s)[p - 1] == '\n'),
        spec_stuff(s)[p] == '.',
    ensures
        p + 1 < spec_stuff(s).len(),
        spec_stuff(s)[p + 1] == '.',
{
    lemma_stuff_at_no_bare_dot(s, 0, p);
}

/// The display name rendered in a synthesized header: the name itself, or
/// nothing.
pub open spec fn spec_opt_name(n: Option<String>) -> Seq<char> {
    match n {
        Some(s) => s@,
        None => Seq::<char>::empty(),
    }
}

/// The minimal header block and stuffed body sent when the server does not
/// advertise 8BITMIME: From, To and Subject headers, a blank line, then the
/// dot-stuffed body text.
pub open spec fn spec_plain_payload(mail: Mail) -> Seq<char> {
    "From: "@ + spec_opt_name(mail.from_name) + "<"@ + mail.from@ + ">\r\nTo: "@ + spec_opt_name(
        mail.to_name,
    ) + "<"@ + mail.to@ + ">\r\nSubject: "@ + mail.subject@ + "\r\n\r\n"@ + spec_stuff(mail.text@)
}

impl Mail {
    /// The body text with dot-stuffing applied: every line beginning with
    /// `.` gains a leading extra `.`.
    pub fn final_text(&self) -> (r: String)
        ensures
            r@ == spec_stuff(self.text@),
    {
        let s = self.text.as_str();
        let n = s.unicode_len();
        let mut out = String::new();
        let mut st: u8 = 0;
        let mut i: usize = 0;
        proof {
            assert(s@.skip(0) =~= s@);
        }
        #[verifier::loop_isolation(false)]
        while i < n
            invariant
                i <= n,
                n == s@.len(),
                0 <= st <= 2,
                spec_stuff(s@) == out@ + spec_stuff_at(s@.skip(i as int), st as int),
            decreases n - i,
        {
            let c = s.get_char(i);
            if st == 0 && c == '.' {
                out.push('.');
                out.push('.');
            } else {
                out.push(c);
            }
            if c == '\r' {
                st = 2;
            } else if c == '\n' && st == 2 {
                st = 0;
            } else {
                st = 1;
            }
            proof {
                assert(s@.skip(i as int).skip(1) =~= s@.skip(i + 1));
                assert(s@.skip(i as int)[0] == s@[i as int]);
            }
            i = i + 1;
        }
        proof {
            assert(spec_stuff_at(s@.skip(n as int), st as int) =~= Seq::<char>::empty());
        }
        out
    }

    /// An owned copy of the mail, field for field.
    pub fn duplicate(&self) -> (r: Mail)
        ensures
            r.subject@ == self.subject@,
            r.from@ == self.from@,
            r.to@ == self.to@,
            r.text@ == self.text@,
            match (r.from_name, self.from_name) {
                (Some(a), Some(b)) => a@ == b@,
                (None, None) => true,
                _ => false,
            },
            match (r.to_name, self.to_name) {
                (Some(a), Some(b)) => a@ == b@,
                (None, None) => true,
                _ => false,
            },
            r.attachments@.len() == self.attachments@.len(),
            forall|k: int|
                0 <= k < self.attachments@.len() ==> r.attachments@[k]@
                    == self.attachments@[k]@,
    {
        let from_name = match &self.from_name {
            Some(s) => Some(s.clone()),
            None => None,
        };
        let to_name = match &self.to_name {
            Some(s) => Some(s.clone()),
            None => None,
        };
        let mut attachments: Vec<String> = Vec::new();
        let mut i: usize = 0;
        #[verifier::loop_isolation(false)]
        while i < self.attachments.len()
            invariant
                i <= self.attachments@.len(),
                attachments@.len() == i,
                forall|k: int|
                    0 <= k < i ==> attachments@[k]@ == self.attachments@[k]@,
            decreases self.attachments@.len() - i,
        {
            attachments.push(self.attachments[i].clone());
            i = i + 1;
        }
        Mail {
            subject: self.subject.clone(),
            from: self.from.clone(),
            from_name,
            to: self.to.clone(),
            to_name,
            text: self.text.clone(),
            attachments,
        }
    }

    /// The synthesized plain payload: minimal headers, a blank line and the
    /// dot-stuffed body.
    pub fn plain_payload(&self) -> (r: String)
        ensures
            r@ == spec_plain_payload(*self),
    {
        let mut out = "From: ".to_owned();
        match &self.from_name {
            Some(n) => out.append(n.as_str()),
            None => {},
        }
        out.append("<");
        out.append(self.from.as_str());
        out.append(">\r\nTo: ");
        match &self.to_name {
            Some(n) => out.append(n.as_str()),
            None => {},
        }
        out.append("<");
        out.append(self.to.as_str());
        out.append(">\r\nSubject: ");
        out.append(self.subject.as_str());
        out.append("\r\n\r\n");
        let body = self.final_text();
        out.append(body.as_str());
        out
    }
}

} // verus!
