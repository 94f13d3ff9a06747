//! Strict structural decoding of the upstream XML schema into the typed
//! data model.
//!
//! The decoder reads the subset of XML the upstream endpoint emits: an
//! optional prolog, elements with double- or single-quoted attributes,
//! self-closing elements, and text content. It is strict about
//! well-formedness — an unclosed or mismatched tag is a
//! [`MensaError::MalformedDocument`] — and lenient about content: unknown
//! elements are skipped whole, so upstream may add elements without breaking
//! the decoder. A missing mandatory element or attribute is a
//! [`MensaError::SchemaMismatch`].
//!
//! Every parsing function is specified against a specification-level twin
//! that defines, character by character, what the decoder accepts and what
//! it yields.

use vstd::prelude::*;
use vstd::string::StrSliceExecFns;
use vstd::string::StringExecFns;

use crate::error::MensaError;
use crate::mensa::Day;
use crate::mensa::DayView;
use crate::mensa::Mensa;
use crate::mensa::MensaView;
use crate::mensa::Menu;
use crate::mensa::MenuView;
use crate::mensa::Place;
use crate::mensa::PlaceView;
use crate::mensa::Plan;
use crate::mensa::PlanView;
use crate::mensa::Price;
use crate::mensa::PriceView;
use crate::mensa::days_view;
use crate::mensa::menus_view;
use crate::strutil::find_char;
use crate::strutil::find_char_at;
use crate::strutil::str_eq;
use crate::url::Generation;

verus! {

/// Whitespace as the decoder skips it.
pub open spec fn is_space(c: char) -> bool {
    c == ' ' || c == '\t' || c == '\r' || c == '\n'
}

/// A character that can stand in an element or attribute name: anything but
/// whitespace and XML punctuation.
pub open spec fn is_name_char(c: char) -> bool {
    &&& !is_space(c)
    &&& c != '<'
    &&& c != '>'
    &&& c != '/'
    &&& c != '='
    &&& c != '"'
    &&& c != '\''
    &&& c != '?'
    &&& c != '!'
}

/// First index at or after `from` holding a non-whitespace character.
pub open spec fn skip_spaces(t: Seq<char>, from: int) -> int
    decreases t.len() - from,
    when 0 <= from <= t.len()
{
    if from >= t.len() {
        t.len() as int
    } else if is_space(t[from]) {
        skip_spaces(t, from + 1)
    } else {
        from
    }
}

/// First index at or after `from` holding a character that cannot stand in a
/// name.
pub open spec fn name_end(t: Seq<char>, from: int) -> int
    decreases t.len() - from,
    when 0 <= from <= t.len()
{
    if from >= t.len() {
        t.len() as int
    } else if is_name_char(t[from]) {
        name_end(t, from + 1)
    } else {
        from
    }
}

/// Exec twin of [`skip_spaces`].
fn skip_spaces_at(s: &str, from: usize) -> (r: usize)
    requires
        from <= s@.len(),
    ensures
        r as int == skip_spaces(s@, from as int),
        from <= r <= s@.len(),
    decreases s@.len() - from,
{
    if from == s.unicode_len() {
        from
    } else {
        let c = s.get_char(from);
        if c == ' ' || c == '\t' || c == '\r' || c == '\n' {
            skip_spaces_at(s, from + 1)
        } else {
            from
        }
    }
}

/// Exec twin of [`name_end`].
fn name_end_at(s: &str, from: usize) -> (r: usize)
    requires
        from <= s@.len(),
    ensures
        r as int == name_end(s@, from as int),
        from <= r <= s@.len(),
    decreases s@.len() - from,
{
    if from == s.unicode_len() {
        from
    } else {
        let c = s.get_char(from);
        let space = c == ' ' || c == '\t' || c == '\r' || c == '\n';
        if !space && c != '<' && c != '>' && c != '/' && c != '=' && c != '"' && c != '\'' && c
            != '?' && c != '!' {
            name_end_at(s, from + 1)
        } else {
            from
        }
    }
}

/// The views of a parsed attribute list.
pub open spec fn attrs_view(a: Seq<(String, String)>) -> Seq<(Seq<char>, Seq<char>)> {
    a.map(|i: int, p: (String, String)| (p.0@, p.1@))
}

/// The attribute list of a tag, parsed from `from` up to (but not past) the
/// `>` or `/` that ends it: `name="value"` pairs, also single-quoted, with
/// optional whitespace around the `=`.
pub open spec fn spec_parse_attrs(t: Seq<char>, from: int) -> Result<
    (Seq<(Seq<char>, Seq<char>)>, int),
    MensaError,
>
    decreases t.len() - from,
    when 0 <= from <= t.len()
{
    let i = skip_spaces(t, from);
    if i >= t.len() {
        Err(MensaError::MalformedDocument)
    } else if t[i] == '>' || t[i] == '/' {
        Ok((Seq::empty(), i))
    } else {
        let j = name_end(t, i);
        if j == i || j >= t.len() {
            Err(MensaError::MalformedDocument)
        } else {
            let k = skip_spaces(t, j);
            if k >= t.len() || t[k] != '=' {
                Err(MensaError::MalformedDocument)
            } else {
                let q = skip_spaces(t, k + 1);
                if q >= t.len() || !(t[q] == '"' || t[q] == '\'') {
                    Err(MensaError::MalformedDocument)
                } else {
                    let v = find_char(t, q + 1, t[q]);
                    if v >= t.len() || v + 1 <= from {
                        Err(MensaError::MalformedDocument)
                    } else {
                        match spec_parse_attrs(t, v + 1) {
                            Ok((rest, end)) => Ok(
                                (seq![(t.subrange(i, j), t.subrange(q + 1, v))] + rest, end),
                            ),
                            Err(e) => Err(e),
                        }
                    }
                }
            }
        }
    }
}

/// Exec twin of [`spec_parse_attrs`].
fn parse_attrs(s: &str, from: usize) -> (r: Result<(Vec<(String, String)>, usize), MensaError>)
    requires
        from <= s@.len(),
    ensures
        match r {
            Ok(p) => {
                &&& spec_parse_attrs(s@, from as int) == Ok::<_, MensaError>(
                    (attrs_view(p.0@), p.1 as int),
                )
                &&& from <= p.1 < s@.len()
                &&& (s@[p.1 as int] == '>' || s@[p.1 as int] == '/')
            },
            Err(e) => spec_parse_attrs(s@, from as int) == Err::<
                (Seq<(Seq<char>, Seq<char>)>, int),
                MensaError,
            >(e),
        },
    decreases s@.len() - from,
{
    let n = s.unicode_len();
    let i = skip_spaces_at(s, from);
    if i == n {
        return Err(MensaError::MalformedDocument);
    }
    let c = s.get_char(i);
    if c == '>' || c == '/' {
        let empty: Vec<(String, String)> = Vec::new();
        proof {
            assert(attrs_view(empty@) =~= Seq::<(Seq<char>, Seq<char>)>::empty());
        }
        return Ok((empty, i));
    }
    let j = name_end_at(s, i);
    if j == i || j == n {
        return Err(MensaError::MalformedDocument);
    }
    let k = skip_spaces_at(s, j);
    if k == n || s.get_char(k) != '=' {
        return Err(MensaError::MalformedDocument);
    }
    let q = skip_spaces_at(s, k + 1);
    if q == n {
        return Err(MensaError::MalformedDocument);
    }
    let qc = s.get_char(q);
    if !(qc == '"' || qc == '\'') {
        return Err(MensaError::MalformedDocument);
    }
    let v = find_char_at(s, q + 1, qc);
    if v == n {
        return Err(MensaError::MalformedDocument);
    }
    let name = String::from_str(s.substring_char(i, j));
    let value = String::from_str(s.substring_char(q + 1, v));
    match parse_attrs(s, v + 1) {
        Ok((rest, end)) => {
            let mut a: Vec<(String, String)> = Vec::new();
            a.push((name, value));
            let mut rest = rest;
            let ghost restv = rest@;
            a.append(&mut rest);
            proof {
                assert(attrs_view(a@) =~= seq![(s@.subrange(i as int, j as int), s@.subrange(
                    q + 1,
                    v as int,
                ))] + attrs_view(restv));
            }
            Ok((a, end))
        },
        Err(e) => Err(e),
    }
}

/// An opened tag: its name, its attributes, whether it closed itself, and
/// the index just past its `>`.
#[verifier::ext_equal]
pub ghost struct SpecTag {
    pub name: Seq<char>,
    pub attrs: Seq<(Seq<char>, Seq<char>)>,
    pub self_closing: bool,
    pub end: int,
}

/// What parsing an open tag whose `<` stands at `at` yields.
pub open spec fn spec_open_tag(t: Seq<char>, at: int) -> Result<SpecTag, MensaError> {
    let j = name_end(t, at + 1);
    if j == at + 1 {
        Err(MensaError::MalformedDocument)
    } else {
        match spec_parse_attrs(t, j) {
            Err(e) => Err(e),
            Ok((attrs, k)) => if t[k] == '>' {
                Ok(SpecTag { name: t.subrange(at + 1, j), attrs, self_closing: false, end: k + 1 })
            } else if k + 1 < t.len() && t[k + 1] == '>' {
                Ok(SpecTag { name: t.subrange(at + 1, j), attrs, self_closing: true, end: k + 2 })
            } else {
                Err(MensaError::MalformedDocument)
            },
        }
    }
}

/// An opened tag as the executable parser returns it.
pub struct Tag {
    pub name: String,
    pub attrs: Vec<(String, String)>,
    pub self_closing: bool,
    pub end: usize,
}

impl View for Tag {
    type V = SpecTag;

    open spec fn view(&self) -> SpecTag {
        SpecTag {
            name: self.name@,
            attrs: attrs_view(self.attrs@),
            self_closing: self.self_closing,
            end: self.end as int,
        }
    }
}

/// Exec twin of [`spec_open_tag`].
fn open_tag(s: &str, at: usize) -> (r: Result<Tag, MensaError>)
    requires
        at < s@.len(),
    ensures
        match r {
            Ok(tag) => {
                &&& spec_open_tag(s@, at as int) == Ok::<SpecTag, MensaError>(tag@)
                &&& at + 3 <= tag.end <= s@.len()
            },
            Err(e) => spec_open_tag(s@, at as int) == Err::<SpecTag, MensaError>(e),
        },
{
    let n = s.unicode_len();
    let j = name_end_at(s, at + 1);
    if j == at + 1 {
        return Err(MensaError::MalformedDocument);
    }
    match parse_attrs(s, j) {
        Err(e) => Err(e),
        Ok((attrs, k)) => {
            let name = String::from_str(s.substring_char(at + 1, j));
            if s.get_char(k) == '>' {
                Ok(Tag { name, attrs, self_closing: false, end: k + 1 })
            } else if k + 1 < n && s.get_char(k + 1) == '>' {
                Ok(Tag { name, attrs, self_closing: true, end: k + 2 })
            } else {
                Err(MensaError::MalformedDocument)
            }
        },
    }
}

/// What parsing a close tag whose `</` stands at `at` yields: the name and
/// the index just past the `>`.
pub open spec fn spec_close_tag(t: Seq<char>, at: int) -> Result<(Seq<char>, int), MensaError> {
    let j = name_end(t, at + 2);
    let k = skip_spaces(t, j);
    if k >= t.len() || t[k] != '>' {
        Err(MensaError::MalformedDocument)
    } else {
        Ok((t.subrange(at + 2, j), k + 1))
    }
}

/// Exec twin of [`spec_close_tag`].
fn close_tag(s: &str, at: usize) -> (r: Result<(String, usize), MensaError>)
    requires
        at + 2 <= s@.len(),
    ensures
        match r {
            Ok(p) => {
                &&& spec_close_tag(s@, at as int) == Ok::<(Seq<char>, int), MensaError>(
                    (p.0@, p.1 as int),
                )
                &&& at + 3 <= p.1 <= s@.len()
            },
            Err(e) => spec_close_tag(s@, at as int) == Err::<(Seq<char>, int), MensaError>(e),
        },
{
    let n = s.unicode_len();
    let j = name_end_at(s, at + 2);
    let k = skip_spaces_at(s, j);
    if k == n || s.get_char(k) != '>' {
        return Err(MensaError::MalformedDocument);
    }
    let name = String::from_str(s.substring_char(at + 2, j));
    Ok((name, k + 1))
}

/// The views of a stack of element names.
pub open spec fn names_view(st: Seq<String>) -> Seq<Seq<char>> {
    st.map(|i: int, n: String| n@)
}

/// Consumes element content — text and nested elements alike — up to and
/// past the close tags of every element still open in `stack`; used to skip
/// the whole subtree of an element the schema does not know. Every close tag
/// must match the innermost open element.
pub open spec fn spec_skip_content(t: Seq<char>, from: int, stack: Seq<Seq<char>>) -> Result<
    int,
    MensaError,
>
    decreases t.len() - from,
    when 0 <= from <= t.len() && stack.len() >= 1
{
    let j = find_char(t, from, '<');
    if j + 1 >= t.len() {
        Err(MensaError::MalformedDocument)
    } else if t[j + 1] == '/' {
        match spec_close_tag(t, j) {
            Err(e) => Err(e),
            Ok((name, e)) => if name != stack.last() {
                Err(MensaError::MalformedDocument)
            } else if stack.len() == 1 {
                Ok(e)
            } else if e <= from || e > t.len() {
                Err(MensaError::MalformedDocument)
            } else {
                spec_skip_content(t, e, stack.drop_last())
            },
        }
    } else {
        match spec_open_tag(t, j) {
            Err(e) => Err(e),
            Ok(tag) => if tag.end <= from || tag.end > t.len() {
                Err(MensaError::MalformedDocument)
            } else if tag.self_closing {
                spec_skip_content(t, tag.end, stack)
            } else {
                spec_skip_content(t, tag.end, stack.push(tag.name))
            },
        }
    }
}

/// Exec twin of [`spec_skip_content`].
fn skip_content(s: &str, from: usize, stack: Vec<String>) -> (r: Result<usize, MensaError>)
    requires
        from <= s@.len(),
        stack@.len() >= 1,
    ensures
        match r {
            Ok(e) => {
                &&& spec_skip_content(s@, from as int, names_view(stack@)) == Ok::<
                    int,
                    MensaError,
                >(e as int)
                &&& from < e <= s@.len()
            },
            Err(err) => spec_skip_content(s@, from as int, names_view(stack@)) == Err::<
                int,
                MensaError,
            >(err),
        },
    decreases s@.len() - from,
{
    let ghost stackv = names_view(stack@);
    let n = s.unicode_len();
    let j = find_char_at(s, from, '<');
    if j == n {
        return Err(MensaError::MalformedDocument);
    }
    if j + 1 == n {
        return Err(MensaError::MalformedDocument);
    }
    if s.get_char(j + 1) == '/' {
        match close_tag(s, j) {
            Err(e) => Err(e),
            Ok((name, e)) => {
                let last = &stack[stack.len() - 1];
                proof {
                    assert(last@ == stackv.last());
                }
                if !str_eq(name.as_str(), last.as_str()) {
                    Err(MensaError::MalformedDocument)
                } else if stack.len() == 1 {
                    Ok(e)
                } else {
                    let mut st = stack;
                    st.pop();
                    proof {
                        assert(names_view(st@) =~= stackv.drop_last());
                    }
                    skip_content(s, e, st)
                }
            },
        }
    } else {
        match open_tag(s, j) {
            Err(e) => Err(e),
            Ok(tag) => {
                if tag.self_closing {
                    skip_content(s, tag.end, stack)
                } else {
                    let end = tag.end;
                    let ghost namev = tag.name@;
                    let mut st = stack;
                    st.push(tag.name);
                    proof {
                        assert(names_view(st@) =~= stackv.push(namev));
                    }
                    skip_content(s, end, st)
                }
            },
        }
    }
}

/// The text content of an element that must hold text only, together with
/// the index just past its close tag: everything up to the next `<`, which
/// must open the matching close tag.
pub open spec fn spec_text_element(t: Seq<char>, from: int, name: Seq<char>) -> Result<
    (Seq<char>, int),
    MensaError,
> {
    let j = find_char(t, from, '<');
    if j + 1 >= t.len() {
        Err(MensaError::MalformedDocument)
    } else if t[j + 1] == '/' {
        match spec_close_tag(t, j) {
            Err(e) => Err(e),
            Ok((cn, e)) => if cn == name {
                Ok((t.subrange(from, j), e))
            } else {
                Err(MensaError::MalformedDocument)
            },
        }
    } else {
        Err(MensaError::SchemaMismatch)
    }
}

/// Exec twin of [`spec_text_element`].
fn text_element(s: &str, from: usize, name: &str) -> (r: Result<(String, usize), MensaError>)
    requires
        from <= s@.len(),
    ensures
        match r {
            Ok(p) => {
                &&& spec_text_element(s@, from as int, name@) == Ok::<(Seq<char>, int), MensaError>(
                    (p.0@, p.1 as int),
                )
                &&& from < p.1 <= s@.len()
            },
            Err(e) => spec_text_element(s@, from as int, name@) == Err::<
                (Seq<char>, int),
                MensaError,
            >(e),
        },
{
    let n = s.unicode_len();
    let j = find_char_at(s, from, '<');
    if j == n || j + 1 == n {
        return Err(MensaError::MalformedDocument);
    }
    if s.get_char(j + 1) != '/' {
        return Err(MensaError::SchemaMismatch);
    }
    match close_tag(s, j) {
        Err(e) => Err(e),
        Ok((cn, e)) => {
            if str_eq(cn.as_str(), name) {
                let text = String::from_str(s.substring_char(from, j));
                Ok((text, e))
            } else {
                Err(MensaError::MalformedDocument)
            }
        },
    }
}

/// The value of the first attribute called `name`.
pub open spec fn attr_value(attrs: Seq<(Seq<char>, Seq<char>)>, name: Seq<char>) -> Option<
    Seq<char>,
>
    decreases attrs.len(),
{
    if attrs.len() == 0 {
        None
    } else if attrs.first().0 == name {
        Some(attrs.first().1)
    } else {
        attr_value(attrs.drop_first(), name)
    }
}

/// Exec twin of [`attr_value`], scanning from index `i`.
fn attr_get(attrs: &Vec<(String, String)>, name: &str, i: usize) -> (r: Option<String>)
    requires
        i <= attrs@.len(),
    ensures
        match r {
            Some(v) => attr_value(attrs_view(attrs@).skip(i as int), name@) == Some(v@),
            None => attr_value(attrs_view(attrs@).skip(i as int), name@) is None,
        },
    decreases attrs@.len() - i,
{
    if i == attrs.len() {
        proof {
            assert(attrs_view(attrs@).skip(i as int) =~= Seq::<(Seq<char>, Seq<char>)>::empty());
        }
        None
    } else {
        let p = &attrs[i];
        proof {
            let ghost pv = attrs@[i as int];
            assert(attrs_view(attrs@).skip(i as int).first() == (pv.0@, pv.1@));
            assert(attrs_view(attrs@).skip(i as int).drop_first() =~= attrs_view(attrs@).skip(
                i as int + 1,
            ));
        }
        if str_eq(p.0.as_str(), name) {
            Some(p.1.clone())
        } else {
            attr_get(attrs, name, i + 1)
        }
    }
}

/// The view of an optional string.
pub open spec fn opt_str_view(o: Option<String>) -> Option<Seq<char>> {
    match o {
        Some(s) => Some(s@),
        None => None,
    }
}

/// The view of an optional price.
pub open spec fn opt_price_view(o: Option<Price>) -> Option<PriceView> {
    match o {
        Some(p) => Some(p@),
        None => None,
    }
}

/// The children of one `menue` element, from `from` up to and past its close
/// tag: `art`, `name` and `preis` are mandatory, `zusatz` optional, anything
/// else — a repeated field included — is skipped. The `preis` element holds
/// the four price tiers as attributes, each mandatory.
pub open spec fn spec_menue_children(
    t: Seq<char>,
    from: int,
    art: Option<Seq<char>>,
    zusatz: Option<Seq<char>>,
    mname: Option<Seq<char>>,
    price: Option<PriceView>,
) -> Result<(MenuView, int), MensaError>
    decreases t.len() - from,
    when 0 <= from <= t.len()
{
    let j = find_char(t, from, '<');
    if j + 1 >= t.len() {
        Err(MensaError::MalformedDocument)
    } else if t[j + 1] == '/' {
        match spec_close_tag(t, j) {
            Err(e) => Err(e),
            Ok((cn, e)) => if cn != "menue"@ {
                Err(MensaError::MalformedDocument)
            } else {
                match (art, mname, price) {
                    (Some(a), Some(nm), Some(p)) => Ok(
                        (MenuView { art: a, food_type: zusatz, name: nm, price: p }, e),
                    ),
                    _ => Err(MensaError::SchemaMismatch),
                }
            },
        }
    } else {
        match spec_open_tag(t, j) {
            Err(e) => Err(e),
            Ok(tag) => if tag.end <= from || tag.end > t.len() {
                Err(MensaError::MalformedDocument)
            } else if tag.name == "art"@ && art is None {
                if tag.self_closing {
                    spec_menue_children(t, tag.end, Some(Seq::empty()), zusatz, mname, price)
                } else {
                    match spec_text_element(t, tag.end, "art"@) {
                        Err(e) => Err(e),
                        Ok((txt, e2)) => if e2 <= from || e2 > t.len() {
                            Err(MensaError::MalformedDocument)
                        } else {
                            spec_menue_children(t, e2, Some(txt), zusatz, mname, price)
                        },
                    }
                }
            } else if tag.name == "zusatz"@ && zusatz is None {
                if tag.self_closing {
                    spec_menue_children(t, tag.end, art, Some(Seq::empty()), mname, price)
                } else {
                    match spec_text_element(t, tag.end, "zusatz"@) {
                        Err(e) => Err(e),
                        Ok((txt, e2)) => if e2 <= from || e2 > t.len() {
                            Err(MensaError::MalformedDocument)
                        } else {
                            spec_menue_children(t, e2, art, Some(txt), mname, price)
                        },
                    }
                }
            } else if tag.name == "name"@ && mname is None {
                if tag.self_closing {
                    spec_menue_children(t, tag.end, art, zusatz, Some(Seq::empty()), price)
                } else {
                    match spec_text_element(t, tag.end, "name"@) {
                        Err(e) => Err(e),
                        Ok((txt, e2)) => if e2 <= from || e2 > t.len() {
                            Err(MensaError::MalformedDocument)
                        } else {
                            spec_menue_children(t, e2, art, zusatz, Some(txt), price)
                        },
                    }
                }
            } else if tag.name == "preis"@ && price is None {
                match (
                    attr_value(tag.attrs, "studierende"@),
                    attr_value(tag.attrs, "angestellte"@),
                    attr_value(tag.attrs, "gaeste"@),
                    attr_value(tag.attrs, "schueler"@),
                ) {
                    (Some(ps), Some(pw), Some(pg), Some(pp)) => {
                        let pv = PriceView {
                            price_students: ps,
                            price_workers: pw,
                            price_guests: pg,
                            price_school: pp,
                        };
                        if tag.self_closing {
                            spec_menue_children(t, tag.end, art, zusatz, mname, Some(pv))
                        } else {
                            match spec_skip_content(t, tag.end, seq!["preis"@]) {
                                Err(e) => Err(e),
                                Ok(e2) => if e2 <= from || e2 > t.len() {
                                    Err(MensaError::MalformedDocument)
                                } else {
                                    spec_menue_children(t, e2, art, zusatz, mname, Some(pv))
                                },
                            }
                        }
                    },
                    _ => Err(MensaError::SchemaMismatch),
                }
            } else {
                if tag.self_closing {
                    spec_menue_children(t, tag.end, art, zusatz, mname, price)
                } else {
                    match spec_skip_content(t, tag.end, seq![tag.name]) {
                        Err(e) => Err(e),
                        Ok(e2) => if e2 <= from || e2 > t.len() {
                            Err(MensaError::MalformedDocument)
                        } else {
                            spec_menue_children(t, e2, art, zusatz, mname, price)
                        },
                    }
                }
            },
        }
    }
}

/// Exec twin of [`spec_menue_children`].
fn menue_children(
    s: &str,
    from: usize,
    art: Option<String>,
    zusatz: Option<String>,
    mname: Option<String>,
    price: Option<Price>,
) -> (r: Result<(Menu, usize), MensaError>)
    requires
        from <= s@.len(),
    ensures
        match r {
            Ok(p) => {
                &&& spec_menue_children(
                    s@,
                    from as int,
                    opt_str_view(art),
                    opt_str_view(zusatz),
                    opt_str_view(mname),
                    opt_price_view(price),
                ) == Ok::<(MenuView, int), MensaError>((p.0@, p.1 as int))
                &&& from < p.1 <= s@.len()
            },
            Err(e) => spec_menue_children(
                s@,
                from as int,
                opt_str_view(art),
                opt_str_view(zusatz),
                opt_str_view(mname),
                opt_price_view(price),
            ) == Err::<(MenuView, int), MensaError>(e),
        },
    decreases s@.len() - from,
{
    let n = s.unicode_len();
    let j = find_char_at(s, from, '<');
    if j == n || j + 1 == n {
        return Err(MensaError::MalformedDocument);
    }
    if s.get_char(j + 1) == '/' {
        match close_tag(s, j) {
            Err(e) => Err(e),
            Ok((cn, e)) => {
                if !str_eq(cn.as_str(), "menue") {
                    Err(MensaError::MalformedDocument)
                } else {
                    match (art, mname, price) {
                        (Some(a), Some(nm), Some(p)) => Ok(
                            (Menu { art: a, food_type: zusatz, name: nm, price: p }, e),
                        ),
                        _ => Err(MensaError::SchemaMismatch),
                    }
                }
            },
        }
    } else {
        match open_tag(s, j) {
            Err(e) => Err(e),
            Ok(tag) => {
                if str_eq(tag.name.as_str(), "art") && art.is_none() {
                    if tag.self_closing {
                        menue_children(s, tag.end, Some(String::new()), zusatz, mname, price)
                    } else {
                        match text_element(s, tag.end, "art") {
                            Err(e) => Err(e),
                            Ok((txt, e2)) => menue_children(
                                s,
                                e2,
                                Some(txt),
                                zusatz,
                                mname,
                                price,
                            ),
                        }
                    }
                } else if str_eq(tag.name.as_str(), "zusatz") && zusatz.is_none() {
                    if tag.self_closing {
                        menue_children(s, tag.end, art, Some(String::new()), mname, price)
                    } else {
                        match text_element(s, tag.end, "zusatz") {
                            Err(e) => Err(e),
                            Ok((txt, e2)) => menue_children(s, e2, art, Some(txt), mname, price),
                        }
                    }
                } else if str_eq(tag.name.as_str(), "name") && mname.is_none() {
                    if tag.self_closing {
                        menue_children(s, tag.end, art, zusatz, Some(String::new()), price)
                    } else {
                        match text_element(s, tag.end, "name") {
                            Err(e) => Err(e),
                            Ok((txt, e2)) => menue_children(s, e2, art, zusatz, Some(txt), price),
                        }
                    }
                } else if str_eq(tag.name.as_str(), "preis") && price.is_none() {
                    let ps = attr_get(&tag.attrs, "studierende", 0);
                    let pw = attr_get(&tag.attrs, "angestellte", 0);
                    let pg = attr_get(&tag.attrs, "gaeste", 0);
                    let pp = attr_get(&tag.attrs, "schueler", 0);
                    proof {
                        assert(attrs_view(tag.attrs@).skip(0) =~= attrs_view(tag.attrs@));
                    }
                    match (ps, pw, pg, pp) {
                        (Some(ps), Some(pw), Some(pg), Some(pp)) => {
                            let pv = Price {
                                price_students: ps,
                                price_workers: pw,
                                price_guests: pg,
                                price_school: pp,
                            };
                            if tag.self_closing {
                                menue_children(s, tag.end, art, zusatz, mname, Some(pv))
                            } else {
                                let mut st: Vec<String> = Vec::new();
                                st.push(String::from_str("preis"));
                                proof {
                                    assert(names_view(st@) =~= seq!["preis"@]);
                                }
                                match skip_content(s, tag.end, st) {
                                    Err(e) => Err(e),
                                    Ok(e2) => menue_children(s, e2, art, zusatz, mname, Some(pv)),
                                }
                            }
                        },
                        _ => Err(MensaError::SchemaMismatch),
                    }
                } else {
                    if tag.self_closing {
                        menue_children(s, tag.end, art, zusatz, mname, price)
                    } else {
                        let end = tag.end;
                        let ghost namev = tag.name@;
                        let mut st: Vec<String> = Vec::new();
                        st.push(tag.name);
                        proof {
                            assert(names_view(st@) =~= seq![namev]);
                        }
                        match skip_content(s, end, st) {
                            Err(e) => Err(e),
                            Ok(e2) => menue_children(s, e2, art, zusatz, mname, price),
                        }
                    }
                }
            },
        }
    }
}

/// The children of one `tagesplan` element: any number of `menue` elements;
/// anything else is skipped.
pub open spec fn spec_tagesplan_children(t: Seq<char>, from: int, menues: Seq<MenuView>) -> Result<
    (Seq<MenuView>, int),
    MensaError,
>
    decreases t.len() - from,
    when 0 <= from <= t.len()
{
    let j = find_char(t, from, '<');
    if j + 1 >= t.len() {
        Err(MensaError::MalformedDocument)
    } else if t[j + 1] == '/' {
        match spec_close_tag(t, j) {
            Err(e) => Err(e),
            Ok((cn, e)) => if cn != "tagesplan"@ {
                Err(MensaError::MalformedDocument)
            } else {
                Ok((menues, e))
            },
        }
    } else {
        match spec_open_tag(t, j) {
            Err(e) => Err(e),
            Ok(tag) => if tag.end <= from || tag.end > t.len() {
                Err(MensaError::MalformedDocument)
            } else if tag.name == "menue"@ {
                if tag.self_closing {
                    Err(MensaError::SchemaMismatch)
                } else {
                    match spec_menue_children(t, tag.end, None, None, None, None) {
                        Err(e) => Err(e),
                        Ok((m, e2)) => if e2 <= from || e2 > t.len() {
                            Err(MensaError::MalformedDocument)
                        } else {
                            spec_tagesplan_children(t, e2, menues.push(m))
                        },
                    }
                }
            } else {
                if tag.self_closing {
                    spec_tagesplan_children(t, tag.end, menues)
                } else {
                    match spec_skip_content(t, tag.end, seq![tag.name]) {
                        Err(e) => Err(e),
                        Ok(e2) => if e2 <= from || e2 > t.len() {
                            Err(MensaError::MalformedDocument)
                        } else {
                            spec_tagesplan_children(t, e2, menues)
                        },
                    }
                }
            },
        }
    }
}

/// Exec twin of [`spec_tagesplan_children`].
fn tagesplan_children(s: &str, from: usize, menues: Vec<Menu>) -> (r: Result<
    (Vec<Menu>, usize),
    MensaError,
>)
    requires
        from <= s@.len(),
    ensures
        match r {
            Ok(p) => {
                &&& spec_tagesplan_children(s@, from as int, menus_view(menues@)) == Ok::<
                    (Seq<MenuView>, int),
                    MensaError,
                >((menus_view(p.0@), p.1 as int))
                &&& from < p.1 <= s@.len()
            },
            Err(e) => spec_tagesplan_children(s@, from as int, menus_view(menues@)) == Err::<
                (Seq<MenuView>, int),
                MensaError,
            >(e),
        },
    decreases s@.len() - from,
{
    let n = s.unicode_len();
    let j = find_char_at(s, from, '<');
    if j == n || j + 1 == n {
        return Err(MensaError::MalformedDocument);
    }
    if s.get_char(j + 1) == '/' {
        match close_tag(s, j) {
            Err(e) => Err(e),
            Ok((cn, e)) => {
                if !str_eq(cn.as_str(), "tagesplan") {
                    Err(MensaError::MalformedDocument)
                } else {
                    Ok((menues, e))
                }
            },
        }
    } else {
        match open_tag(s, j) {
            Err(e) => Err(e),
            Ok(tag) => {
                if str_eq(tag.name.as_str(), "menue") {
                    if tag.self_closing {
                        Err(MensaError::SchemaMismatch)
                    } else {
                        match menue_children(s, tag.end, None, None, None, None) {
                            Err(e) => Err(e),
                            Ok((m, e2)) => {
                                let mut menues = menues;
                                let ghost mv = menus_view(menues@);
                                let ghost m0 = m@;
                                menues.push(m);
                                proof {
                                    assert(menus_view(menues@) =~= mv.push(m0));
                                }
                                tagesplan_children(s, e2, menues)
                            },
                        }
                    }
                } else {
                    if tag.self_closing {
                        tagesplan_children(s, tag.end, menues)
                    } else {
                        let end = tag.end;
                        let ghost namev = tag.name@;
                        let mut st: Vec<String> = Vec::new();
                        st.push(tag.name);
                        proof {
                            assert(names_view(st@) =~= seq![namev]);
                        }
                        match skip_content(s, end, st) {
                            Err(e) => Err(e),
                            Ok(e2) => tagesplan_children(s, e2, menues),
                        }
                    }
                }
            },
        }
    }
}

/// One `tagesplan` element whose open tag is already parsed: its mandatory
/// `datum` attribute becomes the day's raw date string; a self-closing
/// element is a day without dishes.
pub open spec fn spec_tagesplan(t: Seq<char>, tag: SpecTag) -> Result<(DayView, int), MensaError> {
    match attr_value(tag.attrs, "datum"@) {
        None => Err(MensaError::SchemaMismatch),
        Some(datum) => if tag.self_closing {
            Ok((DayView { date: datum, menues: Seq::empty() }, tag.end))
        } else {
            match spec_tagesplan_children(t, tag.end, Seq::empty()) {
                Err(e) => Err(e),
                Ok((ms, e)) => Ok((DayView { date: datum, menues: ms }, e)),
            }
        },
    }
}

/// Exec twin of [`spec_tagesplan`].
fn tagesplan_el(s: &str, tag: Tag) -> (r: Result<(Day, usize), MensaError>)
    requires
        tag.end <= s@.len(),
    ensures
        match r {
            Ok(p) => {
                &&& spec_tagesplan(s@, tag@) == Ok::<(DayView, int), MensaError>((p.0@, p.1 as int))
                &&& tag.end <= p.1 <= s@.len()
            },
            Err(e) => spec_tagesplan(s@, tag@) == Err::<(DayView, int), MensaError>(e),
        },
{
    proof {
        assert(attrs_view(tag.attrs@).skip(0) =~= attrs_view(tag.attrs@));
    }
    match attr_get(&tag.attrs, "datum", 0) {
        None => Err(MensaError::SchemaMismatch),
        Some(datum) => {
            if tag.self_closing {
                let d = Day { date: datum, menues: Vec::new() };
                proof {
                    assert(d@.menues =~= Seq::<MenuView>::empty());
                }
                Ok((d, tag.end))
            } else {
                let empty: Vec<Menu> = Vec::new();
                proof {
                    assert(menus_view(empty@) =~= Seq::<MenuView>::empty());
                }
                match tagesplan_children(s, tag.end, empty) {
                    Err(e) => Err(e),
                    Ok((ms, e)) => Ok((Day { date: datum, menues: ms }, e)),
                }
            }
        },
    }
}

/// The children of the `mensa` element after its leading text: under the
/// legacy generation the day plans stand here; anything else is skipped.
pub open spec fn spec_mensa_children(
    t: Seq<char>,
    from: int,
    generation: Generation,
    days: Seq<DayView>,
) -> Result<(Seq<DayView>, int), MensaError>
    decreases t.len() - from,
    when 0 <= from <= t.len()
{
    let j = find_char(t, from, '<');
    if j + 1 >= t.len() {
        Err(MensaError::MalformedDocument)
    } else if t[j + 1] == '/' {
        match spec_close_tag(t, j) {
            Err(e) => Err(e),
            Ok((cn, e)) => if cn != "mensa"@ {
                Err(MensaError::MalformedDocument)
            } else {
                Ok((days, e))
            },
        }
    } else {
        match spec_open_tag(t, j) {
            Err(e) => Err(e),
            Ok(tag) => if tag.end <= from || tag.end > t.len() {
                Err(MensaError::MalformedDocument)
            } else if tag.name == "tagesplan"@ && generation == Generation::Legacy {
                match spec_tagesplan(t, tag) {
                    Err(e) => Err(e),
                    Ok((d, e2)) => if e2 <= from || e2 > t.len() {
                        Err(MensaError::MalformedDocument)
                    } else {
                        spec_mensa_children(t, e2, generation, days.push(d))
                    },
                }
            } else {
                if tag.self_closing {
                    spec_mensa_children(t, tag.end, generation, days)
                } else {
                    match spec_skip_content(t, tag.end, seq![tag.name]) {
                        Err(e) => Err(e),
                        Ok(e2) => if e2 <= from || e2 > t.len() {
                            Err(MensaError::MalformedDocument)
                        } else {
                            spec_mensa_children(t, e2, generation, days)
                        },
                    }
                }
            },
        }
    }
}

/// Exec twin of [`spec_mensa_children`].
fn mensa_children(s: &str, from: usize, generation: Generation, days: Vec<Day>) -> (r: Result<
    (Vec<Day>, usize),
    MensaError,
>)
    requires
        from <= s@.len(),
    ensures
        match r {
            Ok(p) => {
                &&& spec_mensa_children(s@, from as int, generation, days_view(days@)) == Ok::<
                    (Seq<DayView>, int),
                    MensaError,
                >((days_view(p.0@), p.1 as int))
                &&& from < p.1 <= s@.len()
            },
            Err(e) => spec_mensa_children(s@, from as int, generation, days_view(days@)) == Err::<
                (Seq<DayView>, int),
                MensaError,
            >(e),
        },
    decreases s@.len() - from,
{
    let n = s.unicode_len();
    let j = find_char_at(s, from, '<');
    if j == n || j + 1 == n {
        return Err(MensaError::MalformedDocument);
    }
    if s.get_char(j + 1) == '/' {
        match close_tag(s, j) {
            Err(e) => Err(e),
            Ok((cn, e)) => {
                if !str_eq(cn.as_str(), "mensa") {
                    Err(MensaError::MalformedDocument)
                } else {
                    Ok((days, e))
                }
            },
        }
    } else {
        match open_tag(s, j) {
            Err(e) => Err(e),
            Ok(tag) => {
                if str_eq(tag.name.as_str(), "tagesplan") && generation == Generation::Legacy {
                    match tagesplan_el(s, tag) {
                        Err(e) => Err(e),
                        Ok((d, e2)) => {
                            let mut days = days;
                            let ghost dv = days_view(days@);
                            let ghost d0 = d@;
                            days.push(d);
                            proof {
                                assert(days_view(days@) =~= dv.push(d0));
                            }
                            mensa_children(s, e2, generation, days)
                        },
                    }
                } else {
                    if tag.self_closing {
                        mensa_children(s, tag.end, generation, days)
                    } else {
                        let end = tag.end;
                        let ghost namev = tag.name@;
                        let mut st: Vec<String> = Vec::new();
                        st.push(tag.name);
                        proof {
                            assert(names_view(st@) =~= seq![namev]);
                        }
                        match skip_content(s, end, st) {
                            Err(e) => Err(e),
                            Ok(e2) => mensa_children(s, e2, generation, days),
                        }
                    }
                }
            },
        }
    }
}

/// One `mensa` element, from just past its open tag: its leading text is the
/// display name; under the legacy generation its `tagesplan` children are
/// the day plans.
pub open spec fn spec_mensa_element(t: Seq<char>, from: int, generation: Generation) -> Result<
    (Seq<char>, Seq<DayView>, int),
    MensaError,
> {
    let j = find_char(t, from, '<');
    if j + 1 >= t.len() {
        Err(MensaError::MalformedDocument)
    } else {
        let name = t.subrange(from, j);
        match spec_mensa_children(t, j, generation, Seq::empty()) {
            Err(e) => Err(e),
            Ok((days, e)) => Ok((name, days, e)),
        }
    }
}

/// Exec twin of [`spec_mensa_element`].
fn mensa_element(s: &str, from: usize, generation: Generation) -> (r: Result<
    (String, Vec<Day>, usize),
    MensaError,
>)
    requires
        from <= s@.len(),
    ensures
        match r {
            Ok(p) => {
                &&& spec_mensa_element(s@, from as int, generation) == Ok::<
                    (Seq<char>, Seq<DayView>, int),
                    MensaError,
                >((p.0@, days_view(p.1@), p.2 as int))
                &&& from < p.2 <= s@.len()
            },
            Err(e) => spec_mensa_element(s@, from as int, generation) == Err::<
                (Seq<char>, Seq<DayView>, int),
                MensaError,
            >(e),
        },
{
    let n = s.unicode_len();
    let j = find_char_at(s, from, '<');
    if j == n || j + 1 == n {
        return Err(MensaError::MalformedDocument);
    }
    let name = String::from_str(s.substring_char(from, j));
    let empty: Vec<Day> = Vec::new();
    proof {
        assert(days_view(empty@) =~= Seq::<DayView>::empty());
    }
    match mensa_children(s, j, generation, empty) {
        Err(e) => Err(e),
        Ok((days, e)) => Ok((name, days, e)),
    }
}

/// The children of the `ort` element: one mandatory `mensa` element; under
/// the current generation the `tagesplan` children standing here are the day
/// plans; anything else is skipped.
pub open spec fn spec_ort_children(
    t: Seq<char>,
    from: int,
    generation: Generation,
    id: Seq<char>,
    mensa_name: Option<Seq<char>>,
    days: Seq<DayView>,
) -> Result<(PlaceView, int), MensaError>
    decreases t.len() - from,
    when 0 <= from <= t.len()
{
    let j = find_char(t, from, '<');
    if j + 1 >= t.len() {
        Err(MensaError::MalformedDocument)
    } else if t[j + 1] == '/' {
        match spec_close_tag(t, j) {
            Err(e) => Err(e),
            Ok((cn, e)) => if cn != "ort"@ {
                Err(MensaError::MalformedDocument)
            } else {
                match mensa_name {
                    None => Err(MensaError::SchemaMismatch),
                    Some(nm) => Ok(
                        (PlaceView { id, mensa: MensaView { name: nm }, days }, e),
                    ),
                }
            },
        }
    } else {
        match spec_open_tag(t, j) {
            Err(e) => Err(e),
            Ok(tag) => if tag.end <= from || tag.end > t.len() {
                Err(MensaError::MalformedDocument)
            } else if tag.name == "mensa"@ && mensa_name is None {
                if tag.self_closing {
                    spec_ort_children(t, tag.end, generation, id, Some(Seq::empty()), days)
                } else {
                    match spec_mensa_element(t, tag.end, generation) {
                        Err(e) => Err(e),
                        Ok((nm, mdays, e2)) => if e2 <= from || e2 > t.len() {
                            Err(MensaError::MalformedDocument)
                        } else {
                            spec_ort_children(t, e2, generation, id, Some(nm), days + mdays)
                        },
                    }
                }
            } else if tag.name == "tagesplan"@ && generation == Generation::Current {
                match spec_tagesplan(t, tag) {
                    Err(e) => Err(e),
                    Ok((d, e2)) => if e2 <= from || e2 > t.len() {
                        Err(MensaError::MalformedDocument)
                    } else {
                        spec_ort_children(t, e2, generation, id, mensa_name, days.push(d))
                    },
                }
            } else {
                if tag.self_closing {
                    spec_ort_children(t, tag.end, generation, id, mensa_name, days)
                } else {
                    match spec_skip_content(t, tag.end, seq![tag.name]) {
                        Err(e) => Err(e),
                        Ok(e2) => if e2 <= from || e2 > t.len() {
                            Err(MensaError::MalformedDocument)
                        } else {
                            spec_ort_children(t, e2, generation, id, mensa_name, days)
                        },
                    }
                }
            },
        }
    }
}

/// Exec twin of [`spec_ort_children`].
fn ort_children(
    s: &str,
    from: usize,
    generation: Generation,
    id: String,
    mensa_name: Option<String>,
    days: Vec<Day>,
) -> (r: Result<(Place, usize), MensaError>)
    requires
        from <= s@.len(),
    ensures
        match r {
            Ok(p) => {
                &&& spec_ort_children(
                    s@,
                    from as int,
                    generation,
                    id@,
                    opt_str_view(mensa_name),
                    days_view(days@),
                ) == Ok::<(PlaceView, int), MensaError>((p.0@, p.1 as int))
                &&& from < p.1 <= s@.len()
            },
            Err(e) => spec_ort_children(
                s@,
                from as int,
                generation,
                id@,
                opt_str_view(mensa_name),
                days_view(days@),
            ) == Err::<(PlaceView, int), MensaError>(e),
        },
    decreases s@.len() - from,
{
    let n = s.unicode_len();
    let j = find_char_at(s, from, '<');
    if j == n || j + 1 == n {
        return Err(MensaError::MalformedDocument);
    }
    if s.get_char(j + 1) == '/' {
        match close_tag(s, j) {
            Err(e) => Err(e),
            Ok((cn, e)) => {
                if !str_eq(cn.as_str(), "ort") {
                    Err(MensaError::MalformedDocument)
                } else {
                    match mensa_name {
                        None => Err(MensaError::SchemaMismatch),
                        Some(nm) => {
                            let place = Place { id, mensa: Mensa { name: nm }, days };
                            Ok((place, e))
                        },
                    }
                }
            },
        }
    } else {
        match open_tag(s, j) {
            Err(e) => Err(e),
            Ok(tag) => {
                if str_eq(tag.name.as_str(), "mensa") && mensa_name.is_none() {
                    if tag.self_closing {
                        ort_children(s, tag.end, generation, id, Some(String::new()), days)
                    } else {
                        match mensa_element(s, tag.end, generation) {
                            Err(e) => Err(e),
                            Ok((nm, mdays, e2)) => {
                                let mut days = days;
                                let ghost dv = days_view(days@);
                                let ghost mdv = days_view(mdays@);
                                let mut mdays = mdays;
                                days.append(&mut mdays);
                                proof {
                                    assert(days_view(days@) =~= dv + mdv);
                                }
                                ort_children(s, e2, generation, id, Some(nm), days)
                            },
                        }
                    }
                } else if str_eq(tag.name.as_str(), "tagesplan") && generation
                    == Generation::Current {
                    match tagesplan_el(s, tag) {
                        Err(e) => Err(e),
                        Ok((d, e2)) => {
                            let mut days = days;
                            let ghost dv = days_view(days@);
                            let ghost d0 = d@;
                            days.push(d);
                            proof {
                                assert(days_view(days@) =~= dv.push(d0));
                            }
                            ort_children(s, e2, generation, id, mensa_name, days)
                        },
                    }
                } else {
                    if tag.self_closing {
                        ort_children(s, tag.end, generation, id, mensa_name, days)
                    } else {
                        let end = tag.end;
                        let ghost namev = tag.name@;
                        let mut st: Vec<String> = Vec::new();
                        st.push(tag.name);
                        proof {
                            assert(names_view(st@) =~= seq![namev]);
                        }
                        match skip_content(s, end, st) {
                            Err(e) => Err(e),
                            Ok(e2) => ort_children(s, e2, generation, id, mensa_name, days),
                        }
                    }
                }
            },
        }
    }
}

/// The children of the root `plan` element: the first `ort` element becomes
/// the place of the plan; it must carry an `id` attribute and hold a `mensa`
/// element. Anything else is skipped.
pub open spec fn spec_plan_children(
    t: Seq<char>,
    from: int,
    generation: Generation,
    place: Option<PlaceView>,
) -> Result<(PlaceView, int), MensaError>
    decreases t.len() - from,
    when 0 <= from <= t.len()
{
    let j = find_char(t, from, '<');
    if j + 1 >= t.len() {
        Err(MensaError::MalformedDocument)
    } else if t[j + 1] == '/' {
        match spec_close_tag(t, j) {
            Err(e) => Err(e),
            Ok((cn, e)) => if cn != "plan"@ {
                Err(MensaError::MalformedDocument)
            } else {
                match place {
                    None => Err(MensaError::SchemaMismatch),
                    Some(p) => Ok((p, e)),
                }
            },
        }
    } else {
        match spec_open_tag(t, j) {
            Err(e) => Err(e),
            Ok(tag) => if tag.end <= from || tag.end > t.len() {
                Err(MensaError::MalformedDocument)
            } else if tag.name == "ort"@ && place is None {
                match attr_value(tag.attrs, "id"@) {
                    None => Err(MensaError::SchemaMismatch),
                    Some(id) => if tag.self_closing {
                        Err(MensaError::SchemaMismatch)
                    } else {
                        match spec_ort_children(t, tag.end, generation, id, None, Seq::empty()) {
                            Err(e) => Err(e),
                            Ok((p, e2)) => if e2 <= from || e2 > t.len() {
                                Err(MensaError::MalformedDocument)
                            } else {
                                spec_plan_children(t, e2, generation, Some(p))
                            },
                        }
                    },
                }
            } else {
                if tag.self_closing {
                    spec_plan_children(t, tag.end, generation, place)
                } else {
                    match spec_skip_content(t, tag.end, seq![tag.name]) {
                        Err(e) => Err(e),
                        Ok(e2) => if e2 <= from || e2 > t.len() {
                            Err(MensaError::MalformedDocument)
                        } else {
                            spec_plan_children(t, e2, generation, place)
                        },
                    }
                }
            },
        }
    }
}

/// The view of an optional place.
pub open spec fn opt_place_view(o: Option<Place>) -> Option<PlaceView> {
    match o {
        Some(p) => Some(p@),
        None => None,
    }
}

/// Exec twin of [`spec_plan_children`].
fn plan_children(s: &str, from: usize, generation: Generation, place: Option<Place>) -> (r: Result<
    (Place, usize),
    MensaError,
>)
    requires
        from <= s@.len(),
    ensures
        match r {
            Ok(p) => {
                &&& spec_plan_children(s@, from as int, generation, opt_place_view(place)) == Ok::<
                    (PlaceView, int),
                    MensaError,
                >((p.0@, p.1 as int))
                &&& from < p.1 <= s@.len()
            },
            Err(e) => spec_plan_children(s@, from as int, generation, opt_place_view(place))
                == Err::<(PlaceView, int), MensaError>(e),
        },
    decreases s@.len() - from,
{
    let n = s.unicode_len();
    let j = find_char_at(s, from, '<');
    if j == n || j + 1 == n {
        return Err(MensaError::MalformedDocument);
    }
    if s.get_char(j + 1) == '/' {
        match close_tag(s, j) {
            Err(e) => Err(e),
            Ok((cn, e)) => {
                if !str_eq(cn.as_str(), "plan") {
                    Err(MensaError::MalformedDocument)
                } else {
                    match place {
                        None => Err(MensaError::SchemaMismatch),
                        Some(p) => Ok((p, e)),
                    }
                }
            },
        }
    } else {
        match open_tag(s, j) {
            Err(e) => Err(e),
            Ok(tag) => {
                if str_eq(tag.name.as_str(), "ort") && place.is_none() {
                    proof {
                        assert(attrs_view(tag.attrs@).skip(0) =~= attrs_view(tag.attrs@));
                    }
                    match attr_get(&tag.attrs, "id", 0) {
                        None => Err(MensaError::SchemaMismatch),
                        Some(id) => {
                            if tag.self_closing {
                                Err(MensaError::SchemaMismatch)
                            } else {
                                let empty: Vec<Day> = Vec::new();
                                proof {
                                    assert(days_view(empty@) =~= Seq::<DayView>::empty());
                                }
                                match ort_children(s, tag.end, generation, id, None, empty) {
                                    Err(e) => Err(e),
                                    Ok((p, e2)) => plan_children(s, e2, generation, Some(p)),
                                }
                            }
                        },
                    }
                } else {
                    if tag.self_closing {
                        plan_children(s, tag.end, generation, place)
                    } else {
                        let end = tag.end;
                        let ghost namev = tag.name@;
                        let mut st: Vec<String> = Vec::new();
                        st.push(tag.name);
                        proof {
                            assert(names_view(st@) =~= seq![namev]);
                        }
                        match skip_content(s, end, st) {
                            Err(e) => Err(e),
                            Ok(e2) => plan_children(s, e2, generation, place),
                        }
                    }
                }
            },
        }
    }
}

/// First index past any leading whitespace and `<?` ... `>` prolog
/// instructions.
pub open spec fn spec_skip_prolog(t: Seq<char>, from: int) -> Result<int, MensaError>
    decreases t.len() - from,
    when 0 <= from <= t.len()
{
    let i = skip_spaces(t, from);
    if i + 1 < t.len() && t[i] == '<' && t[i + 1] == '?' {
        let j = find_char(t, i, '>');
        if j >= t.len() {
            Err(MensaError::MalformedDocument)
        } else if j + 1 <= from {
            Err(MensaError::MalformedDocument)
        } else {
            spec_skip_prolog(t, j + 1)
        }
    } else {
        Ok(i)
    }
}

/// Exec twin of [`spec_skip_prolog`].
fn skip_prolog(s: &str, from: usize) -> (r: Result<usize, MensaError>)
    requires
        from <= s@.len(),
    ensures
        match r {
            Ok(i) => {
                &&& spec_skip_prolog(s@, from as int) == Ok::<int, MensaError>(i as int)
                &&& from <= i <= s@.len()
            },
            Err(e) => spec_skip_prolog(s@, from as int) == Err::<int, MensaError>(e),
        },
    decreases s@.len() - from,
{
    let n = s.unicode_len();
    let i = skip_spaces_at(s, from);
    if i < n && s.get_char(i) == '<' && i + 1 < n && s.get_char(i + 1) == '?' {
        let j = find_char_at(s, i, '>');
        if j == n {
            Err(MensaError::MalformedDocument)
        } else {
            skip_prolog(s, j + 1)
        }
    } else {
        Ok(i)
    }
}

/// What decoding a whole response body yields under a given generation: the
/// optional prolog, then the root `plan` element holding one `ort`, with
/// nothing but whitespace after it.
pub open spec fn spec_decode(generation: Generation, t: Seq<char>) -> Result<
    PlanView,
    MensaError,
> {
    match spec_skip_prolog(t, 0) {
        Err(e) => Err(e),
        Ok(i) => if i >= t.len() {
            Err(MensaError::MalformedDocument)
        } else {
            match spec_open_tag(t, i) {
                Err(e) => Err(e),
                Ok(tag) => if tag.name != "plan"@ {
                    Err(MensaError::SchemaMismatch)
                } else if tag.self_closing {
                    Err(MensaError::SchemaMismatch)
                } else if tag.end > t.len() {
                    Err(MensaError::MalformedDocument)
                } else {
                    match spec_plan_children(t, tag.end, generation, None) {
                        Err(e) => Err(e),
                        Ok((place, e)) => if e > t.len() || skip_spaces(t, e) != t.len() {
                            Err(MensaError::MalformedDocument)
                        } else {
                            Ok(PlanView { place })
                        },
                    }
                },
            }
        },
    }
}

/// Decodes one response body into the typed plan, under the XML nesting of
/// the given generation.
pub fn decode(generation: Generation, body: &str) -> (r: Result<Plan, MensaError>)
    ensures
        match r {
            Ok(p) => spec_decode(generation, body@) == Ok::<PlanView, MensaError>(p@),
            Err(e) => spec_decode(generation, body@) == Err::<PlanView, MensaError>(e),
        },
{
    let n = body.unicode_len();
    match skip_prolog(body, 0) {
        Err(e) => Err(e),
        Ok(i) => {
            if i == n {
                return Err(MensaError::MalformedDocument);
            }
            match open_tag(body, i) {
                Err(e) => Err(e),
                Ok(tag) => {
                    if !str_eq(tag.name.as_str(), "plan") {
                        Err(MensaError::SchemaMismatch)
                    } else if tag.self_closing {
                        Err(MensaError::SchemaMismatch)
                    } else {
                        match plan_children(body, tag.end, generation, None) {
                            Err(e) => Err(e),
                            Ok((place, e)) => {
                                let rest = skip_spaces_at(body, e);
                                if rest != n {
                                    Err(MensaError::MalformedDocument)
                                } else {
                                    Ok(Plan { place })
                                }
                            },
                        }
                    }
                },
            }
        },
    }
}

} // verus!
