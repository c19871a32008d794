//! The charm store identifier grammar: parsing and printing of
//! `[store:][~namespace/]name[-revision]` texts.

use vstd::prelude::*;

use crate::strutil::{
    alpha_end, alpha_scan, dec_rep, digit_end, digit_scan, digits_to_u32, digits_value,
    is_alnum_char, is_alphabetic_char, is_ascii_alpha_char, is_digit_char, kebab_end, kebab_scan,
    kebab_ok_at, lemma_digit_end, push_char, u32_dec,
};

verus! {

/// The mathematical shape of a parsed identifier.
pub struct CharmUrlView {
    pub store: Option<Seq<char>>,
    pub namespace: Option<Seq<char>>,
    pub name: Seq<char>,
    pub revision: Option<u32>,
}

/// Represents a charm's charm store URL
#[derive(Debug)]
pub struct CharmURL {
    pub store: Option<String>,
    pub namespace: Option<String>,
    pub name: String,
    pub revision: Option<u32>,
}

impl View for CharmURL {
    type V = CharmUrlView;

    open spec fn view(&self) -> CharmUrlView {
        CharmUrlView {
            store: match self.store {
                Some(s) => Some(s@),
                None => None,
            },
            namespace: match self.namespace {
                Some(s) => Some(s@),
                None => None,
            },
            name: self.name@,
            revision: self.revision,
        }
    }
}

/// The store tag at the head of the text: a non-empty run of ASCII letters
/// followed directly by a colon; absent otherwise.
pub open spec fn spec_store(s: Seq<char>) -> Option<Seq<char>> {
    let e = alpha_end(s);
    if 0 < e && e < s.len() && s[e] == ':' {
        Some(s.take(e))
    } else {
        None
    }
}

/// How many characters the store stage consumes.
pub open spec fn store_consumed(s: Seq<char>) -> int {
    if spec_store(s) is Some {
        alpha_end(s) + 1
    } else {
        0
    }
}

/// The namespace after the store: `~`, a non-empty kebab-case token, `/`;
/// absent otherwise.
pub open spec fn spec_namespace(s: Seq<char>) -> Option<Seq<char>> {
    if s.len() > 0 && s[0] == '~' {
        let t = s.skip(1);
        let e = kebab_end(t);
        if 0 < e && e < t.len() && t[e] == '/' {
            Some(t.take(e))
        } else {
            None
        }
    } else {
        None
    }
}

/// How many characters the namespace stage consumes.
pub open spec fn ns_consumed(s: Seq<char>) -> int {
    if spec_namespace(s) is Some {
        kebab_end(s.skip(1)) + 2
    } else {
        0
    }
}

/// The revision after the name: a dash followed directly by at least one
/// decimal digit; absent otherwise.
pub open spec fn spec_revision_digits(s: Seq<char>) -> Option<Seq<char>> {
    if s.len() >= 2 && s[0] == '-' && is_digit_char(s[1]) {
        Some(s.skip(1).take(digit_end(s.skip(1))))
    } else {
        None
    }
}

/// How many characters the revision stage consumes.
pub open spec fn rev_consumed(s: Seq<char>) -> int {
    if spec_revision_digits(s) is Some {
        1 + digit_end(s.skip(1))
    } else {
        0
    }
}

/// The head of the printed form: the store tag and its colon, if any.
pub open spec fn store_part(u: CharmUrlView) -> Seq<char> {
    match u.store {
        Some(st) => st.push(':'),
        None => Seq::empty(),
    }
}

/// The namespace of the printed form: `~`, the token, `/`, if any.
pub open spec fn ns_part(u: CharmUrlView) -> Seq<char> {
    match u.namespace {
        Some(ns) => seq!['~'] + ns.push('/'),
        None => Seq::empty(),
    }
}

/// The tail of the printed form: a dash and the revision in decimal, if any.
pub open spec fn rev_part(u: CharmUrlView) -> Seq<char> {
    match u.revision {
        Some(r) => seq!['-'] + dec_rep(r as int),
        None => Seq::empty(),
    }
}

/// The printed form of an identifier: the exact inverse of the grammar.
pub open spec fn spec_format(u: CharmUrlView) -> Seq<char> {
    store_part(u) + ns_part(u) + u.name + rev_part(u)
}

/// What parsing an identifier text yields: the parsed value, or the reason
/// the text is rejected.
pub enum ParseOutcome {
    /// The whole text was consumed and every stage is in shape.
    Parsed(CharmUrlView),
    /// No non-empty name token stands where the name must be.
    EmptyName,
    /// The revision digits name a number above the unsigned 32-bit range.
    RevisionOutOfRange,
    /// Text is left over after all four stages.
    TrailingData,
}

/// The identifier grammar, stage by stage: store, namespace, name, revision,
/// and nothing after them.
pub open spec fn spec_parse(s: Seq<char>) -> ParseOutcome {
    let s1 = s.skip(store_consumed(s));
    let s2 = s1.skip(ns_consumed(s1));
    let e = kebab_end(s2);
    if e == 0 {
        ParseOutcome::EmptyName
    } else {
        let s3 = s2.skip(e);
        match spec_revision_digits(s3) {
            Some(ds) => if digits_value(ds) > u32::MAX {
                ParseOutcome::RevisionOutOfRange
            } else if s3.len() > rev_consumed(s3) {
                ParseOutcome::TrailingData
            } else {
                ParseOutcome::Parsed(
                    CharmUrlView {
                        store: spec_store(s),
                        namespace: spec_namespace(s1),
                        name: s2.take(e),
                        revision: Some(digits_value(ds) as u32),
                    },
                )
            },
            None => if s3.len() > 0 {
                ParseOutcome::TrailingData
            } else {
                ParseOutcome::Parsed(
                    CharmUrlView {
                        store: spec_store(s),
                        namespace: spec_namespace(s1),
                        name: s2.take(e),
                        revision: None,
                    },
                )
            },
        }
    }
}

/// The message that parsing reports for each way a text is rejected.
pub open spec fn spec_error_message(o: ParseOutcome) -> Seq<char> {
    match o {
        ParseOutcome::Parsed(_) => Seq::empty(),
        ParseOutcome::EmptyName => "charm url has an empty name"@,
        ParseOutcome::RevisionOutOfRange => "charm url revision is out of range"@,
        ParseOutcome::TrailingData => "extra data at end of charm url"@,
    }
}

/// Matches a `kebab-case` name that must not start or end with a dash.
/// Returns the remainder and the token, in that order.
pub fn kebab_case(input: &str) -> (r: Result<(String, String), String>)
    ensures
        input@.len() == 0 ==> r is Err,
        input@.len() > 0 ==> (r matches Ok(p) && p.0@ == input@.skip(kebab_end(input@)) && p.1@
            == input@.take(kebab_end(input@))),
{
    let n = input.unicode_len();
    if n == 0 {
        return Err("expected a kebab-case token".to_owned());
    }
    let e = kebab_scan(input);
    let tok = input.substring_char(0, e).to_owned();
    let rem = input.substring_char(e, n).to_owned();
    Ok((rem, tok))
}

/// Parses a charm store URL fragment
///
/// The only currently known one is `cs`, but in theory others are allowed.
/// Returns the remainder and the store tag, in that order.
pub fn parse_store(input: &str) -> (r: Result<(String, Option<String>), String>)
    ensures
        r matches Ok(p) && (match spec_store(input@) {
            Some(t) => p.1 matches Some(st) && st@ == t && p.0@ == input@.skip(
                store_consumed(input@),
            ),
            None => p.1 is None && p.0@ == input@,
        }),
{
    let n = input.unicode_len();
    let e = alpha_scan(input);
    if 0 < e && e < n && input.get_char(e) == ':' {
        let tok = input.substring_char(0, e).to_owned();
        let rem = input.substring_char(e + 1, n).to_owned();
        Ok((rem, Some(tok)))
    } else {
        Ok((input.to_owned(), None))
    }
}

/// Parses a namespace URL fragment
///
/// For example, `~foo-charmers/`. Returns the remainder and the namespace,
/// in that order.
pub fn parse_namespace(input: &str) -> (r: Result<(String, Option<String>), String>)
    ensures
        r matches Ok(p) && (match spec_namespace(input@) {
            Some(t) => p.1 matches Some(ns) && ns@ == t && p.0@ == input@.skip(
                ns_consumed(input@),
            ),
            None => p.1 is None && p.0@ == input@,
        }),
{
    let n = input.unicode_len();
    if n == 0 || input.get_char(0) != '~' {
        return Ok((input.to_owned(), None));
    }
    let tail = input.substring_char(1, n);
    let e = kebab_scan(tail);
    let tn = n - 1;
    assert(tail@ == input@.skip(1));
    if 0 < e && e < tn && tail.get_char(e) == '/' {
        let tok = tail.substring_char(0, e).to_owned();
        let rem = tail.substring_char(e + 1, tn).to_owned();
        assert(rem@ =~= input@.skip(ns_consumed(input@)));
        Ok((rem, Some(tok)))
    } else {
        Ok((input.to_owned(), None))
    }
}

/// Parses a charm or bundle URL fragment.
/// Returns the remainder and the name token, in that order.
pub fn parse_name(input: &str) -> (r: Result<(String, String), String>)
    ensures
        input@.len() == 0 ==> r is Err,
        input@.len() > 0 ==> (r matches Ok(p) && p.0@ == input@.skip(kebab_end(input@)) && p.1@
            == input@.take(kebab_end(input@))),
{
    kebab_case(input)
}

/// Parses a revision URL fragment
///
/// Must be zero or greater. Returns the remainder and the run of revision
/// digits, in that order.
pub fn parse_revision(input: &str) -> (r: Result<(String, Option<String>), String>)
    ensures
        r matches Ok(p) && (match spec_revision_digits(input@) {
            Some(t) => p.1 matches Some(ds) && ds@ == t && p.0@ == input@.skip(
                rev_consumed(input@),
            ),
            None => p.1 is None && p.0@ == input@,
        }),
{
    let n = input.unicode_len();
    if n < 2 || input.get_char(0) != '-' || !crate::strutil::is_digit(input.get_char(1)) {
        return Ok((input.to_owned(), None));
    }
    let tail = input.substring_char(1, n);
    assert(tail@ == input@.skip(1));
    let e = digit_scan(tail);
    proof {
        lemma_digit_end(tail@);
        assert(tail@[0] == input@[1]);
    }
    let tok = tail.substring_char(0, e).to_owned();
    let rem = tail.substring_char(e, n - 1).to_owned();
    Ok((rem, Some(tok)))
}

impl CharmURL {
    /// Parses a full charm store URL: the text must hold the four grammar
    /// stages and nothing else, with a non-empty name and a revision within
    /// the unsigned 32-bit range.
    pub fn parse(input: &str) -> (r: Result<CharmURL, String>)
        ensures
            r matches Ok(url) ==> spec_parse(input@) == ParseOutcome::Parsed(url@),
            r is Ok <==> spec_parse(input@) matches ParseOutcome::Parsed(_),
            r matches Err(m) ==> m@ == spec_error_message(spec_parse(input@)),
    {
        let (r1, store) = match parse_store(input) {
            Ok(p) => p,
            Err(e) => {
                return Err(e);
            },
        };
        let (r2, namespace) = match parse_namespace(r1.as_str()) {
            Ok(p) => p,
            Err(e) => {
                return Err(e);
            },
        };
        proof {
            assert(input@.skip(0) =~= input@);
            assert(r1@.skip(0) =~= r1@);
            assert(r1@ == input@.skip(store_consumed(input@)));
            assert(r2@ == r1@.skip(ns_consumed(r1@)));
        }
        let ghost s2 = r2@;
        let (r3, name) = match parse_name(r2.as_str()) {
            Ok(p) => p,
            Err(_) => {
                assert(kebab_end(s2) == 0);
                return Err("charm url has an empty name".to_owned());
            },
        };
        if name.as_str().unicode_len() == 0 {
            proof {
                crate::strutil::lemma_kebab_end_from(s2, 0);
                assert(s2.take(kebab_end(s2)).len() == kebab_end(s2));
            }
            return Err("charm url has an empty name".to_owned());
        }
        proof {
            crate::strutil::lemma_kebab_end_from(s2, 0);
            assert(s2.take(kebab_end(s2)).len() == kebab_end(s2));
            assert(kebab_end(s2) != 0);
        }
        let (r4, rev_digits) = match parse_revision(r3.as_str()) {
            Ok(p) => p,
            Err(e) => {
                return Err(e);
            },
        };
        let revision = match rev_digits {
            Some(ds) => {
                proof {
                    lemma_digit_end(r3@.skip(1));
                }
                match digits_to_u32(ds.as_str()) {
                    Some(v) => Some(v),
                    None => {
                        return Err("charm url revision is out of range".to_owned());
                    },
                }
            },
            None => None,
        };
        if r4.as_str().unicode_len() != 0 {
            return Err("extra data at end of charm url".to_owned());
        }
        Ok(CharmURL { store, namespace, name, revision })
    }

    /// Prints the identifier: store and colon if present, `~`, namespace and
    /// slash if present, the name, and a dash with the revision if present.
    pub fn to_string(&self) -> (r: String)
        ensures
            r@ == spec_format(self@),
    {
        let mut out = String::new();
        if let Some(st) = &self.store {
            out.append(st.as_str());
            push_char(&mut out, ':');
            proof {
                assert(out@ =~= store_part(self@));
            }
        }
        let ghost head = out@;
        if let Some(ns) = &self.namespace {
            push_char(&mut out, '~');
            out.append(ns.as_str());
            push_char(&mut out, '/');
            proof {
                assert(out@ =~= head + ns_part(self@));
            }
        }
        proof {
            assert(out@ =~= store_part(self@) + ns_part(self@));
        }
        out.append(self.name.as_str());
        let ghost mid = out@;
        if let Some(rev) = self.revision {
            push_char(&mut out, '-');
            let digits = u32_dec(rev);
            out.append(digits.as_str());
            proof {
                assert(out@ =~= mid + rev_part(self@));
            }
        }
        proof {
            assert(out@ =~= spec_format(self@));
        }
        out
    }

    /// Returns the un-namespaced charm name, for passing to the API of a
    /// particular charm store.
    pub fn api_name(&self) -> (r: String)
        ensures
            r@ == spec_format(CharmUrlView { store: None, ..self@ }),
    {
        let temp = CharmURL {
            store: None,
            namespace: clone_opt_string(&self.namespace),
            name: self.name.clone(),
            revision: self.revision,
        };
        temp.to_string()
    }

    /// An identifier that stands for a plain filesystem path: the path is
    /// the whole name, and every other part is absent.
    pub fn from_path(path: &str) -> (r: CharmURL)
        ensures
            r@ == (CharmUrlView {
                store: None,
                namespace: None,
                name: path@,
                revision: None,
            }),
    {
        CharmURL { store: None, namespace: None, name: path.to_owned(), revision: None }
    }

    /// A copy with the namespace replaced.
    pub fn with_namespace(&self, namespace: Option<String>) -> (r: CharmURL)
        ensures
            r@ == (CharmUrlView {
                namespace: match namespace {
                    Some(n) => Some(n@),
                    None => None,
                },
                ..self@
            }),
    {
        CharmURL {
            store: clone_opt_string(&self.store),
            namespace,
            name: self.name.clone(),
            revision: self.revision,
        }
    }

    /// A copy with the revision replaced.
    pub fn with_revision(&self, revision: Option<u32>) -> (r: CharmURL)
        ensures
            r@ == (CharmUrlView { revision, ..self@ }),
    {
        CharmURL {
            store: clone_opt_string(&self.store),
            namespace: clone_opt_string(&self.namespace),
            name: self.name.clone(),
            revision,
        }
    }

    /// A copy with the store tag replaced.
    pub fn with_store(&self, store: Option<String>) -> (r: CharmURL)
        ensures
            r@ == (CharmUrlView {
                store: match store {
                    Some(s) => Some(s@),
                    None => None,
                },
                ..self@
            }),
    {
        CharmURL {
            store,
            namespace: clone_opt_string(&self.namespace),
            name: self.name.clone(),
            revision: self.revision,
        }
    }
}

/// A copy of an optional string with the same characters.
pub fn clone_opt_string(s: &Option<String>) -> (r: Option<String>)
    ensures
        (match (s, &r) {
            (Some(a), Some(b)) => a@ == b@,
            (None, None) => true,
            _ => false,
        }),
{
    match s {
        Some(a) => Some(a.clone()),
        None => None,
    }
}

impl Clone for CharmURL {
    /// A copy with the same parts.
    fn clone(&self) -> (r: Self)
        ensures
            r@ == self@,
    {
        CharmURL {
            store: clone_opt_string(&self.store),
            namespace: clone_opt_string(&self.namespace),
            name: self.name.clone(),
            revision: self.revision,
        }
    }
}

impl PartialEq for CharmURL {
    /// Two identifiers are equal when all four parts agree.
    fn eq(&self, other: &Self) -> (r: bool) {
        let st = match (&self.store, &other.store) {
            (Some(a), Some(b)) => *a == *b,
            (None, None) => true,
            _ => false,
        };
        let ns = match (&self.namespace, &other.namespace) {
            (Some(a), Some(b)) => *a == *b,
            (None, None) => true,
            _ => false,
        };
        let rev = match (self.revision, other.revision) {
            (Some(a), Some(b)) => a == b,
            (None, None) => true,
            _ => false,
        };
        st && ns && rev && self.name == other.name
    }
}

impl vstd::std_specs::cmp::PartialEqSpecImpl for CharmURL {
    open spec fn obeys_eq_spec() -> bool {
        true
    }

    open spec fn eq_spec(&self, other: &Self) -> bool {
        self@ == other@
    }
}

impl core::str::FromStr for CharmURL {
    type Err = String;

    fn from_str(s: &str) -> Result<Self, Self::Err> {
        Self::parse(s)
    }
}

/// A well-formed kebab-case token: non-empty, letters and digits, with every
/// dash standing strictly inside the token and directly before a letter.
pub open spec fn valid_token(t: Seq<char>) -> bool {
    &&& t.len() > 0
    &&& forall|i: int|
        0 <= i < t.len() ==> (is_alnum_char(#[trigger] t[i]) || (t[i] == '-' && 0 < i && i + 1
            < t.len() && is_ascii_alpha_char(t[i + 1])))
}

/// A well-formed store tag: a non-empty run of ASCII letters.
pub open spec fn valid_store_token(t: Seq<char>) -> bool {
    t.len() > 0 && forall|i: int| 0 <= i < t.len() ==> is_ascii_alpha_char(#[trigger] t[i])
}

/// A legally constructed identifier: a well-formed name, and a well-formed
/// store tag and namespace wherever they are present.
pub open spec fn valid_charm_url(u: CharmUrlView) -> bool {
    &&& valid_token(u.name)
    &&& (match u.store {
        Some(st) => valid_store_token(st),
        None => true,
    })
    &&& (match u.namespace {
        Some(ns) => valid_token(ns),
        None => true,
    })
}

/// The kebab-case scan of a text that starts with a well-formed token and
/// then stops stops exactly at the end of the token.
proof fn lemma_kebab_end_of_token(s: Seq<char>, t: Seq<char>)
    requires
        valid_token(t),
        t.len() <= s.len(),
        forall|j: int| 0 <= j < t.len() ==> s[j] == t[j],
        t.len() < s.len() ==> !kebab_ok_at(s, t.len() as int),
    ensures
        kebab_end(s) == t.len(),
{
    assert forall|j: int| 0 <= j < t.len() implies kebab_ok_at(s, j) by {
        assert(s[j] == t[j]);
        if !is_alnum_char(t[j]) {
            assert(t[j] == '-' && 0 < j && j + 1 < t.len() && is_ascii_alpha_char(t[j + 1]));
            assert(s[j + 1] == t[j + 1]);
            assert(is_alphabetic_char(s[j + 1]));
        }
    };
    crate::strutil::lemma_kebab_end_is(s, t.len() as int);
}

/// The store stage of the grammar takes exactly the printed store tag.
proof fn lemma_store_stage(u: CharmUrlView)
    requires
        valid_charm_url(u),
    ensures
        spec_store(spec_format(u)) == u.store,
        spec_format(u).skip(store_consumed(spec_format(u))) == ns_part(u) + u.name + rev_part(u),
{
    let s = spec_format(u);
    let tail0 = ns_part(u) + u.name + rev_part(u);
    match u.store {
        Some(st) => {
            assert forall|j: int| 0 <= j < st.len() implies is_ascii_alpha_char(s[j]) by {
                assert(s[j] == store_part(u)[j]);
                assert(store_part(u)[j] == st[j]);
            }
            assert(s[st.len() as int] == ':');
            assert(!is_ascii_alpha_char(':'));
            crate::strutil::lemma_alpha_end_is(s, st.len() as int);
            assert(s.take(st.len() as int) =~= st);
            assert(spec_store(s) == Some(st));
            assert(s.skip(st.len() as int + 1) =~= tail0);
        },
        None => {
            crate::strutil::lemma_alpha_end(s);
            let e = alpha_end(s);
            if 0 < e && e < s.len() && s[e] == ':' {
                assert(s =~= tail0);
                lemma_no_colon(u, e);
                assert(false);
            }
            assert(spec_store(s) == None::<Seq<char>>);
            assert(s.skip(0) =~= tail0);
        },
    }
}

/// The namespace stage of the grammar takes exactly the printed namespace.
proof fn lemma_ns_stage(u: CharmUrlView)
    requires
        valid_charm_url(u),
    ensures
        spec_namespace(ns_part(u) + u.name + rev_part(u)) == u.namespace,
        (ns_part(u) + u.name + rev_part(u)).skip(
            ns_consumed(ns_part(u) + u.name + rev_part(u)),
        ) == u.name + rev_part(u),
{
    let s1 = ns_part(u) + u.name + rev_part(u);
    let tail1 = u.name + rev_part(u);
    match u.namespace {
        Some(ns) => {
            assert(s1[0] == '~');
            let t = s1.skip(1);
            assert(t =~= ns.push('/') + tail1);
            assert forall|j: int| 0 <= j < ns.len() implies t[j] == ns[j] by {
                assert(t[j] == (ns.push('/') + tail1)[j]);
            }
            assert(t[ns.len() as int] == '/');
            assert(!is_alnum_char('/') && '/' != '-');
            assert(!kebab_ok_at(t, ns.len() as int));
            lemma_kebab_end_of_token(t, ns);
            assert(t.take(ns.len() as int) =~= ns);
            assert(spec_namespace(s1) == Some(ns));
            assert(s1.skip(ns.len() as int + 2) =~= tail1);
        },
        None => {
            assert(s1 =~= tail1);
            if s1.len() > 0 && s1[0] == '~' {
                assert(s1[0] == u.name[0]);
                assert(is_alnum_char(u.name[0]) || u.name[0] == '-');
                assert(false);
            }
            assert(spec_namespace(s1) == None::<Seq<char>>);
            assert(s1.skip(0) =~= tail1);
        },
    }
}

/// The name stage of the grammar takes exactly the printed name.
proof fn lemma_name_stage(u: CharmUrlView)
    requires
        valid_charm_url(u),
    ensures
        kebab_end(u.name + rev_part(u)) == u.name.len(),
        (u.name + rev_part(u)).take(u.name.len() as int) == u.name,
        (u.name + rev_part(u)).skip(u.name.len() as int) == rev_part(u),
{
    let s2 = u.name + rev_part(u);
    match u.revision {
        Some(r) => {
            crate::strutil::lemma_dec_rep_digits(r as int);
            assert(s2[u.name.len() as int] == rev_part(u)[0]);
            assert(rev_part(u)[0] == '-');
            assert(s2[u.name.len() as int + 1] == rev_part(u)[1]);
            assert(rev_part(u)[1] == dec_rep(r as int)[0]);
            assert(is_digit_char(s2[u.name.len() as int + 1]));
            assert(!is_alphabetic_char(s2[u.name.len() as int + 1]));
            assert(!kebab_ok_at(s2, u.name.len() as int));
            lemma_kebab_end_of_token(s2, u.name);
        },
        None => {
            assert(s2 =~= u.name);
            lemma_kebab_end_of_token(s2, u.name);
        },
    }
    assert(s2.take(u.name.len() as int) =~= u.name);
    assert(s2.skip(u.name.len() as int) =~= rev_part(u));
}

/// The revision stage of the grammar takes exactly the printed digits, and
/// reading them back gives the revision itself.
proof fn lemma_rev_stage(u: CharmUrlView)
    requires
        valid_charm_url(u),
    ensures
        (match u.revision {
            Some(r) => spec_revision_digits(rev_part(u)) == Some(dec_rep(r as int))
                && digits_value(dec_rep(r as int)) == r as int && rev_consumed(rev_part(u))
                == rev_part(u).len(),
            None => spec_revision_digits(rev_part(u)) == None::<Seq<char>> && rev_part(u).len()
                == 0,
        }),
{
    let s3 = rev_part(u);
    match u.revision {
        Some(r) => {
            crate::strutil::lemma_dec_rep_digits(r as int);
            crate::strutil::lemma_dec_rep_value(r as int);
            let d = dec_rep(r as int);
            assert(s3[0] == '-');
            assert(s3[1] == d[0]);
            let t = s3.skip(1);
            assert(t =~= d);
            assert forall|j: int| 0 <= j < t.len() implies is_digit_char(t[j]) by {
                assert(t[j] == d[j]);
            }
            crate::strutil::lemma_digit_end_is(t, t.len() as int);
            assert(t.take(t.len() as int) =~= d);
        },
        None => {
        },
    }
}

/// Printing and then parsing a legally constructed identifier gives the
/// identifier back unchanged: the grammar and the printer are exact
/// inverses on every value the grammar admits.
pub proof fn lemma_parse_format_roundtrip(u: CharmUrlView)
    requires
        valid_charm_url(u),
    ensures
        spec_parse(spec_format(u)) == ParseOutcome::Parsed(u),
{
    let s = spec_format(u);
    lemma_store_stage(u);
    let s1 = s.skip(store_consumed(s));
    lemma_ns_stage(u);
    let s2 = s1.skip(ns_consumed(s1));
    lemma_name_stage(u);
    let e = kebab_end(s2);
    assert(e == u.name.len());
    let s3 = s2.skip(e);
    assert(s3 == rev_part(u));
    lemma_rev_stage(u);
    match u.revision {
        Some(r) => {
            assert(digits_value(dec_rep(r as int)) <= u32::MAX);
            assert(spec_parse(s) == ParseOutcome::Parsed(
                CharmUrlView {
                    store: u.store,
                    namespace: u.namespace,
                    name: u.name,
                    revision: Some(r),
                },
            ));
        },
        None => {
            assert(s3.len() == 0);
        },
    }
}

/// No character of a printed identifier without a store tag is a colon.
proof fn lemma_no_colon(u: CharmUrlView, i: int)
    requires
        valid_charm_url(u),
        u.store is None,
        0 <= i < (ns_part(u) + u.name + rev_part(u)).len(),
    ensures
        (ns_part(u) + u.name + rev_part(u))[i] != ':',
{
    let s = ns_part(u) + u.name + rev_part(u);
    let a = ns_part(u).len();
    let b = a + u.name.len();
    if i < a {
        match u.namespace {
            Some(ns) => {
                assert(s[i] == ns_part(u)[i]);
                if i == 0 {
                    assert(s[i] == '~');
                } else if i <= ns.len() {
                    assert(ns_part(u)[i] == ns.push('/')[i - 1]);
                    if i - 1 < ns.len() {
                        assert(is_alnum_char(ns[i - 1]) || ns[i - 1] == '-');
                    } else {
                        assert(ns.push('/')[i - 1] == '/');
                    }
                } else {
                    assert(ns_part(u)[i] == ns.push('/')[i - 1]);
                    assert(i - 1 == ns.len());
                    assert(ns.push('/')[i - 1] == '/');
                }
            },
            None => {
                assert(false);
            },
        }
    } else if i < b {
        assert(s[i] == u.name[i - a]);
        assert(is_alnum_char(u.name[i - a]) || u.name[i - a] == '-');
    } else {
        match u.revision {
            Some(r) => {
                assert(s[i] == rev_part(u)[i - b]);
                if i == b {
                    assert(rev_part(u)[0] == '-');
                } else {
                    crate::strutil::lemma_dec_rep_digits(r as int);
                    assert(rev_part(u)[i - b] == dec_rep(r as int)[i - b - 1]);
                    assert(is_digit_char(dec_rep(r as int)[i - b - 1]));
                }
            },
            None => {
                assert(false);
            },
        }
    }
}

} // verus!
