//! The outer log line: two bare fields, then seven quoted ones.
use vstd::prelude::*;
use crate::text::{is_space, is_space_char, chars_of, string_of};

verus! {

/// End of the run of non-space characters that starts at `i`.
pub open spec fn token_end(s: Seq<char>, i: int) -> int
    decreases s.len() - i,
{
    if 0 <= i < s.len() && !is_space(s[i]) {
        token_end(s, i + 1)
    } else {
        i
    }
}

/// Position of the quote that closes a field whose text starts at `j`: the first `"`
/// not taken as part of an escaped `\"`; `s.len()` when there is none.
pub open spec fn quote_end(s: Seq<char>, j: int) -> int
    decreases s.len() - j,
{
    if j < 0 || j >= s.len() {
        s.len() as int
    } else if s[j] == '\\' && j + 1 < s.len() && s[j + 1] == '"' {
        quote_end(s, j + 2)
    } else if s[j] == '"' {
        j
    } else {
        quote_end(s, j + 1)
    }
}

/// The `k` quoted fields that start at `i`, each after one space character, which must
/// end the line.
pub open spec fn quoted_fields(s: Seq<char>, i: int, k: nat) -> Option<Seq<Seq<char>>>
    decreases k,
{
    if k == 0 {
        if i == s.len() {
            Some(Seq::empty())
        } else {
            None
        }
    } else if 0 <= i && i + 1 < s.len() && is_space(s[i]) && s[i + 1] == '"' {
        let e = quote_end(s, i + 2);
        if e < s.len() {
            match quoted_fields(s, e + 1, (k - 1) as nat) {
                Some(rest) => Some(seq![s.subrange(i + 2, e)] + rest),
                None => None,
            }
        } else {
            None
        }
    } else {
        None
    }
}

/// The nine fields of a log line, or `None` where the line does not have the shape.
pub open spec fn envelope_fields(s: Seq<char>) -> Option<Seq<Seq<char>>> {
    let a = token_end(s, 0);
    if 0 < a < s.len() && is_space(s[a]) {
        let b = token_end(s, a + 1);
        if a + 1 < b {
            match quoted_fields(s, b, 7) {
                Some(q) => Some(seq![s.subrange(0, a), s.subrange(a + 1, b)] + q),
                None => None,
            }
        } else {
            None
        }
    } else {
        None
    }
}

/// Replaces each `\"` with `"`, left to right; nothing else is unescaped.
pub open spec fn unescape(s: Seq<char>) -> Seq<char>
    decreases s.len(),
{
    if s.len() == 0 {
        s
    } else if s.len() >= 2 && s[0] == '\\' && s[1] == '"' {
        seq!['"'] + unescape(s.subrange(2, s.len() as int))
    } else {
        seq![s[0]] + unescape(s.subrange(1, s.len() as int))
    }
}

/// Writes each `"` as `\"`, the way a payload is put into a log line.
pub open spec fn escape(s: Seq<char>) -> Seq<char>
    decreases s.len(),
{
    if s.len() == 0 {
        s
    } else {
        (if s[0] == '"' {
            seq!['\\', '"']
        } else {
            seq![s[0]]
        }) + escape(s.subrange(1, s.len() as int))
    }
}

/// Escaping a payload and then unescaping it gives back the payload, whatever it holds,
/// backslashes included.
pub proof fn lemma_unescape_escape(s: Seq<char>)
    ensures
        unescape(escape(s)) == s,
    decreases s.len(),
{
    if s.len() > 0 {
        let rest = s.subrange(1, s.len() as int);
        let e = escape(rest);
        lemma_unescape_escape(rest);
        if s[0] == '"' {
            let t = seq!['\\', '"'] + e;
            assert(t.subrange(2, t.len() as int) =~= e);
            assert(seq!['"'] + rest =~= s);
        } else {
            let t = seq![s[0]] + e;
            assert(t.subrange(1, t.len() as int) =~= e);
            if s[0] == '\\' && t.len() >= 2 {
                if rest[0] == '"' {
                    assert(e[0] == '\\');
                } else {
                    assert(e[0] == rest[0]);
                }
            }
            assert(seq![s[0]] + rest =~= s);
        }
    }
}

/// An escaped payload between quotes is read as one field up to its closing quote, as
/// long as the payload does not end with a backslash.
pub proof fn lemma_escaped_field_end(pre: Seq<char>, p: Seq<char>, post: Seq<char>)
    requires
        p.len() == 0 || p.last() != '\\',
    ensures
        quote_end(pre + escape(p) + seq!['"'] + post, pre.len() as int) == pre.len() + escape(
            p,
        ).len(),
    decreases p.len(),
{
    let t = pre + escape(p) + seq!['"'] + post;
    let j = pre.len() as int;
    if p.len() == 0 {
        assert(t[j] == '"');
    } else {
        let rest = p.subrange(1, p.len() as int);
        let e = escape(rest);
        assert(rest.len() == 0 || rest.last() == p.last());
        if p[0] == '"' {
            let pre2 = pre + seq!['\\', '"'];
            assert(t =~= pre2 + e + seq!['"'] + post);
            assert(t[j] == '\\' && t[j + 1] == '"');
            lemma_escaped_field_end(pre2, rest, post);
        } else {
            let pre2 = pre + seq![p[0]];
            assert(t =~= pre2 + e + seq!['"'] + post);
            assert(t[j] == p[0]);
            if p[0] == '\\' {
                if rest.len() == 0 {
                    assert(p.last() == p[0]);
                } else if rest[0] == '"' {
                    assert(e[0] == '\\');
                    assert(t[j + 1] == e[0]);
                } else {
                    assert(e[0] == rest[0]);
                    assert(t[j + 1] == e[0]);
                }
            }
            lemma_escaped_field_end(pre2, rest, post);
        }
    }
}

/// One line of the access log, split into its nine fields.
pub struct LogLine {
    pub request_id: String,
    pub request_date: String,
    pub request_uri: String,
    pub x_real_ip: String,
    pub remote_addr: String,
    pub referrer: String,
    pub user_agent: String,
    pub accept_language: String,
    pub request_body: String,
}

impl LogLine {
    /// The nine fields, in the order of the line.
    pub open spec fn fields(&self) -> Seq<Seq<char>> {
        seq![
            self.request_id@,
            self.request_date@,
            self.request_uri@,
            self.x_real_ip@,
            self.remote_addr@,
            self.referrer@,
            self.user_agent@,
            self.accept_language@,
            self.request_body@,
        ]
    }
}

fn scan_token(cs: &Vec<char>, i: usize) -> (r: usize)
    requires
        i <= cs.len(),
    ensures
        r as int == token_end(cs@, i as int),
        i <= r <= cs.len(),
{
    let mut j = i;
    while j < cs.len() && !is_space_char(cs[j])
        invariant
            i <= j <= cs.len(),
            token_end(cs@, j as int) == token_end(cs@, i as int),
        decreases cs.len() - j,
    {
        j = j + 1;
    }
    j
}

fn scan_quoted(cs: &Vec<char>, i: usize) -> (r: usize)
    requires
        i <= cs.len(),
    ensures
        r as int == quote_end(cs@, i as int),
        i <= r <= cs.len(),
        r < cs.len() ==> cs@[r as int] == '"',
{
    let mut j = i;
    while j < cs.len()
        invariant
            i <= j <= cs.len() + 1,
            quote_end(cs@, j as int) == quote_end(cs@, i as int),
        decreases cs.len() + 1 - j,
    {
        if cs[j] == '\\' && j + 1 < cs.len() && cs[j + 1] == '"' {
            j = j + 2;
        } else if cs[j] == '"' {
            return j;
        } else {
            j = j + 1;
        }
    }
    cs.len()
}

fn copy_range(cs: &Vec<char>, from: usize, to: usize) -> (r: String)
    requires
        from <= to <= cs.len(),
    ensures
        r@ == cs@.subrange(from as int, to as int),
{
    let mut part: Vec<char> = Vec::new();
    let mut k = from;
    while k < to
        invariant
            from <= k <= to <= cs.len(),
            part@ == cs@.subrange(from as int, k as int),
        decreases to - k,
    {
        part.push(cs[k]);
        k = k + 1;
        assert(part@ =~= cs@.subrange(from as int, k as int));
    }
    string_of(&part)
}

/// Splits a log line into its fields; `None` where the line does not have the shape.
pub fn parse_envelope(line: &str) -> (r: Option<LogLine>)
    ensures
        r is Some <==> envelope_fields(line@) is Some,
        r matches Some(l) ==> l.fields() == envelope_fields(line@).unwrap(),
{
    let cs = chars_of(line);
    let ghost s = cs@;
    let a = scan_token(&cs, 0);
    if !(0 < a && a < cs.len() && is_space_char(cs[a])) {
        return None;
    }
    let b = scan_token(&cs, a + 1);
    if !(a + 1 < b) {
        return None;
    }
    let mut quoted: Vec<String> = Vec::new();
    proof {
        assert(quoted@.map_values(|f: String| f@) =~= Seq::<Seq<char>>::empty());
        match quoted_fields(s, b as int, 7) {
            Some(rest) => {
                assert(Seq::<Seq<char>>::empty() + rest =~= rest);
            },
            None => {},
        }
    }
    let mut i = b;
    let mut n: usize = 0;
    while n < 7
        invariant
            s == cs@,
            s == line@,
            a as int == token_end(s, 0),
            b as int == token_end(s, a + 1),
            0 < a < s.len(),
            is_space(s[a as int]),
            a + 1 < b,
            n <= 7,
            b <= i <= cs.len(),
            quoted@.len() == n,
            quoted_fields(s, b as int, 7) == match quoted_fields(s, i as int, (7 - n) as nat) {
                Some(rest) => Some(quoted@.map_values(|f: String| f@) + rest),
                None => None::<Seq<Seq<char>>>,
            },
        decreases 7 - n,
    {
        if !(i < cs.len() && i + 1 < cs.len() && is_space_char(cs[i]) && cs[i + 1] == '"') {
            assert(quoted_fields(s, i as int, (7 - n) as nat) is None);
            assert(quoted_fields(s, b as int, 7) is None);
            return None;
        }
        let e = scan_quoted(&cs, i + 2);
        if e >= cs.len() {
            assert(quoted_fields(s, i as int, (7 - n) as nat) is None);
            assert(quoted_fields(s, b as int, 7) is None);
            return None;
        }
        let field = copy_range(&cs, i + 2, e);
        let ghost before = quoted@.map_values(|f: String| f@);
        quoted.push(field);
        proof {
            let after = quoted@.map_values(|f: String| f@);
            assert(after =~= before + seq![s.subrange(i + 2, e as int)]);
            match quoted_fields(s, e + 1, (7 - n - 1) as nat) {
                Some(rest) => {
                    assert(before + (seq![s.subrange(i + 2, e as int)] + rest) =~= after + rest);
                },
                None => {},
            }
        }
        i = e + 1;
        n = n + 1;
    }
    if i != cs.len() {
        assert(quoted_fields(s, b as int, 7) is None);
        return None;
    }
    let ghost q = quoted@.map_values(|f: String| f@);
    assert(quoted_fields(s, b as int, 7) == Some(q + Seq::<Seq<char>>::empty()));
    assert(q + Seq::<Seq<char>>::empty() =~= q);
    let request_body = quoted.pop().unwrap();
    let accept_language = quoted.pop().unwrap();
    let user_agent = quoted.pop().unwrap();
    let referrer = quoted.pop().unwrap();
    let remote_addr = quoted.pop().unwrap();
    let x_real_ip = quoted.pop().unwrap();
    let request_uri = quoted.pop().unwrap();
    let l = LogLine {
        request_id: copy_range(&cs, 0, a),
        request_date: copy_range(&cs, a + 1, b),
        request_uri,
        x_real_ip,
        remote_addr,
        referrer,
        user_agent,
        accept_language,
        request_body,
    };
    assert(l.fields() =~= seq![s.subrange(0, a as int), s.subrange(a + 1, b as int)] + q);
    Some(l)
}

/// The payload of a log line's body: each `\"` replaced with `"`.
pub fn unescape_body(body: &str) -> (r: String)
    ensures
        r@ == unescape(body@),
{
    let cs = chars_of(body);
    let ghost s = cs@;
    let mut out: Vec<char> = Vec::new();
    let mut i: usize = 0;
    assert(out@ + unescape(s.subrange(0, s.len() as int)) =~= unescape(s)) by {
        assert(s.subrange(0, s.len() as int) =~= s);
    }
    while i < cs.len()
        invariant
            s == cs@,
            i <= cs.len(),
            out@ + unescape(s.subrange(i as int, s.len() as int)) == unescape(s),
        decreases cs.len() - i,
    {
        let ghost t = s.subrange(i as int, s.len() as int);
        if i + 1 < cs.len() && cs[i] == '\\' && cs[i + 1] == '"' {
            out.push('"');
            assert(t.subrange(2, t.len() as int) =~= s.subrange(i + 2, s.len() as int));
            assert(out@ + unescape(s.subrange(i + 2, s.len() as int)) =~= unescape(s));
            i = i + 2;
        } else {
            out.push(cs[i]);
            assert(t.subrange(1, t.len() as int) =~= s.subrange(i + 1, s.len() as int));
            assert(out@ + unescape(s.subrange(i + 1, s.len() as int)) =~= unescape(s));
            i = i + 1;
        }
    }
    assert(out@ + unescape(s.subrange(i as int, s.len() as int)) =~= out@);
    assert(s =~= body@);
    string_of(&out)
}

} // verus!
