use vstd::prelude::*;

use crate::text::{pair_at, split_once_on_pair, split_once_pair, views};

verus! {

/// What a header is: its name and its value.
pub struct HeaderModel {
    pub name: Seq<char>,
    pub value: Seq<char>,
}

/// Whether `name` may name a header: it is not empty and holds no `": "`.
pub open spec fn name_ok(name: Seq<char>) -> bool {
    name.len() > 0 && split_once_pair(name, ':', ' ') is None
}

/// The header that one raw line gives: the text before the first `": "` is the name, the
/// text after it the value. A line without the separator, or with an empty name, gives none.
pub open spec fn parse_header(line: Seq<char>) -> Option<HeaderModel> {
    match split_once_pair(line, ':', ' ') {
        Some(p) => if p.0.len() > 0 {
            Some(HeaderModel { name: p.0, value: p.1 })
        } else {
            None
        },
        None => None,
    }
}

/// The headers that a block of raw lines gives, in order, the lines that give none left out.
pub open spec fn parse_headers(lines: Seq<Seq<char>>) -> Seq<HeaderModel>
    decreases lines.len(),
{
    if lines.len() == 0 {
        Seq::empty()
    } else {
        let rest = parse_headers(lines.drop_last());
        match parse_header(lines.last()) {
            Some(h) => rest.push(h),
            None => rest,
        }
    }
}

/// One header on the wire: `name: value` and a line end.
pub open spec fn header_text(h: HeaderModel) -> Seq<char> {
    h.name + ": "@ + h.value + "\r\n"@
}

/// A sequence of headers on the wire, one after the other.
pub open spec fn headers_text(hs: Seq<HeaderModel>) -> Seq<char>
    decreases hs.len(),
{
    if hs.len() == 0 {
        Seq::empty()
    } else {
        headers_text(hs.drop_last()) + header_text(hs.last())
    }
}

/// The models of a sequence of headers.
pub open spec fn models(v: Seq<Header>) -> Seq<HeaderModel> {
    v.map_values(|h: Header| h@)
}

/// A name and a value given as a pair of strings.
pub open spec fn pair_model(p: (String, String)) -> HeaderModel {
    HeaderModel { name: p.0@, value: p.1@ }
}

/// The text before the first separator holds no separator, and the text is the two parts
/// joined by it.
pub proof fn lemma_split_once_parts(s: Seq<char>, a: char, b: char)
    requires
        split_once_pair(s, a, b) is Some,
    ensures
        ({
            let p = split_once_pair(s, a, b)->0;
            &&& s =~= p.0 + seq![a, b] + p.1
            &&& split_once_pair(p.0, a, b) is None
        }),
    decreases s.len(),
{
    if !(s.len() >= 2 && s[0] == a && s[1] == b) {
        let t = s.skip(1);
        lemma_split_once_parts(t, a, b);
        let q = split_once_pair(t, a, b)->0;
        let x = seq![s[0]] + q.0;
        assert(split_once_pair(s, a, b)->0 == (x, q.1));
        assert(s =~= seq![s[0]] + t);
        assert(x + seq![a, b] + q.1 =~= seq![s[0]] + (q.0 + seq![a, b] + q.1));
        assert(x.skip(1) =~= q.0);
        if x.len() >= 2 {
            assert(x[1] == t[0]);
            assert(!pair_at(x, 0, a, b));
        }
    }
}

/// Text without the character `a` holds no separator that starts with `a`.
pub proof fn lemma_no_split_without(s: Seq<char>, a: char, b: char)
    requires
        forall|i: int| 0 <= i < s.len() ==> s[i] != a,
    ensures
        split_once_pair(s, a, b) is None,
    decreases s.len(),
{
    if s.len() >= 2 {
        lemma_no_split_without(s.skip(1), a, b);
    }
}

/// Parsing a block of header lines goes line by line: two blocks one after the other give
/// their headers one after the other.
pub proof fn lemma_parse_headers_append(a: Seq<Seq<char>>, b: Seq<Seq<char>>)
    ensures
        parse_headers(a + b) == parse_headers(a) + parse_headers(b),
    decreases b.len(),
{
    if b.len() == 0 {
        assert(a + b =~= a);
        assert(parse_headers(a) + parse_headers(b) =~= parse_headers(a));
    } else {
        lemma_parse_headers_append(a, b.drop_last());
        assert((a + b).drop_last() =~= a + b.drop_last());
        assert((a + b).last() == b.last());
        match parse_header(b.last()) {
            Some(h) => {
                assert((parse_headers(a) + parse_headers(b.drop_last())).push(h) =~= parse_headers(
                    a,
                ) + parse_headers(b.drop_last()).push(h));
            },
            None => {},
        }
    }
}

/// A line without the `": "` separator is dropped from a header block, and the lines around
/// it give their headers all the same.
pub proof fn lemma_malformed_line_dropped(
    before: Seq<Seq<char>>,
    line: Seq<char>,
    after: Seq<Seq<char>>,
)
    requires
        split_once_pair(line, ':', ' ') is None,
    ensures
        parse_headers(before + seq![line] + after) == parse_headers(before) + parse_headers(after),
{
    lemma_parse_headers_append(before + seq![line], after);
    lemma_parse_headers_append(before, seq![line]);
    assert(seq![line].drop_last() =~= Seq::<Seq<char>>::empty());
    assert(parse_headers(Seq::<Seq<char>>::empty()) =~= Seq::<HeaderModel>::empty());
    assert(seq![line].last() == line);
    assert(parse_header(line) is None);
    assert(parse_headers(seq![line]) =~= Seq::<HeaderModel>::empty());
    assert(parse_headers(before) + Seq::<HeaderModel>::empty() =~= parse_headers(before));
}

/// One header field: a name and a value.
pub struct Header {
    name: String,
    value: String,
}

impl View for Header {
    type V = HeaderModel;

    closed spec fn view(&self) -> HeaderModel {
        HeaderModel { name: self.name@, value: self.value@ }
    }
}

impl Header {
    #[verifier::type_invariant]
    spec fn inv(self) -> bool {
        name_ok(self.name@)
    }

    /// The header's name.
    pub fn name(&self) -> (r: &String)
        ensures
            r@ == self@.name,
    {
        &self.name
    }

    /// The header's value.
    pub fn value(&self) -> (r: &String)
        ensures
            r@ == self@.value,
    {
        &self.value
    }

    /// The headers that the raw lines give, lines without a `": "` left out; an error when
    /// there is no block of lines at all.
    pub fn try_build_headers_from_slice(possible_headers: Option<&[String]>) -> (r: Result<
        Vec<Header>,
        HeaderError,
    >)
        ensures
            match possible_headers {
                Some(lines) => r matches Ok(hs) && models(hs@) == parse_headers(views(lines@)),
                None => r == Err::<Vec<Header>, HeaderError>(HeaderError::InvalidHeader),
            },
    {
        match possible_headers {
            Some(lines) => {
                let mut built: Vec<Header> = Vec::new();
                let mut j: usize = 0;
                proof {
                    assert(views(lines@).take(0) =~= Seq::<Seq<char>>::empty());
                    assert(models(built@) =~= Seq::<HeaderModel>::empty());
                }
                while j < lines.len()
                    invariant
                        j <= lines@.len(),
                        models(built@) == parse_headers(views(lines@).take(j as int)),
                    decreases lines@.len() - j,
                {
                    proof {
                        assert(views(lines@).take(j + 1).drop_last() =~= views(lines@).take(
                            j as int,
                        ));
                    }
                    match Header::try_build_header(lines[j].as_str()) {
                        Some(h) => {
                            let ghost before = built@;
                            built.push(h);
                            proof {
                                assert(models(built@) =~= models(before).push(h@));
                            }
                        },
                        None => {},
                    }
                    j = j + 1;
                }
                proof {
                    assert(views(lines@).take(lines@.len() as int) =~= views(lines@));
                }
                Ok(built)
            },
            None => Err(HeaderError::InvalidHeader),
        }
    }

    /// Headers with the given names and values, in the given order.
    pub fn try_build_headers_from_hashmap(possible_headers: Vec<(String, String)>) -> (r: Vec<
        Header,
    >)
        requires
            forall|i: int|
                0 <= i < possible_headers@.len() ==> name_ok(#[trigger] possible_headers@[i].0@),
        ensures
            models(r@) == possible_headers@.map_values(|p: (String, String)| pair_model(p)),
    {
        let mut built: Vec<Header> = Vec::new();
        let mut j: usize = 0;
        while j < possible_headers.len()
            invariant
                j <= possible_headers@.len(),
                forall|i: int|
                    0 <= i < possible_headers@.len() ==> name_ok(
                        #[trigger] possible_headers@[i].0@,
                    ),
                models(built@) =~= possible_headers@.take(j as int).map_values(
                    |p: (String, String)| pair_model(p),
                ),
            decreases possible_headers@.len() - j,
        {
            let name = possible_headers[j].0.clone();
            let value = possible_headers[j].1.clone();
            let ghost before = built@;
            built.push(Header { name, value });
            proof {
                assert(possible_headers@.take(j + 1) =~= possible_headers@.take(j as int).push(
                    possible_headers@[j as int],
                ));
                assert(models(built@) =~= models(before).push(built@.last()@));
            }
            j = j + 1;
        }
        proof {
            assert(possible_headers@.take(possible_headers@.len() as int) =~= possible_headers@);
        }
        built
    }

    /// The header that one raw line gives, if any.
    pub fn try_build_header(header_string: &str) -> (r: Option<Header>)
        ensures
            match r {
                Some(h) => parse_header(header_string@) == Some(h@),
                None => parse_header(header_string@) is None,
            },
    {
        match split_once_on_pair(header_string, ':', ' ') {
            Some((section, content)) => {
                if section.as_str().is_empty() {
                    None
                } else {
                    proof {
                        lemma_split_once_parts(header_string@, ':', ' ');
                    }
                    Some(Header { name: section, value: content })
                }
            },
            None => None,
        }
    }

    /// The header on the wire: `name: value` and a line end.
    pub fn header_as_string(&self) -> (r: String)
        ensures
            r@ == header_text(self@),
    {
        let mut s = self.name.clone();
        s.append(": ");
        s.append(self.value.as_str());
        s.append("\r\n");
        s
    }

    /// The headers on the wire one after the other; nothing where there are none.
    pub fn build_headers_to_string(headers: Option<&Vec<Header>>) -> (r: String)
        ensures
            r@ == match headers {
                Some(v) => headers_text(models(v@)),
                None => Seq::<char>::empty(),
            },
    {
        let mut s = String::new();
        match headers {
            Some(v) => {
                let mut j: usize = 0;
                proof {
                    assert(models(v@).take(0) =~= Seq::<HeaderModel>::empty());
                }
                while j < v.len()
                    invariant
                        j <= v@.len(),
                        s@ == headers_text(models(v@).take(j as int)),
                    decreases v@.len() - j,
                {
                    proof {
                        assert(models(v@).take(j + 1).drop_last() =~= models(v@).take(j as int));
                    }
                    let h = v[j].header_as_string();
                    s.append(h.as_str());
                    j = j + 1;
                }
                proof {
                    assert(models(v@).take(v@.len() as int) =~= models(v@));
                }
            },
            None => {},
        }
        s
    }
}

/// Why a block of header lines could not be read.
#[derive(PartialEq, Eq, Structural, Clone, Copy, Debug)]
pub enum HeaderError {
    InvalidHeader,
}

} // verus!
