use vstd::prelude::*;

use crate::client::SpaceTrackClient;
use crate::error::Error;
use crate::format::Format;
use crate::text::{decimal, push_decimal, starts_with, str_eq, str_starts_with};

verus! {

/// Concatenation of clause strings in the order they were added.
pub open spec fn seg_concat(segs: Seq<Seq<char>>) -> Seq<char>
    decreases segs.len(),
{
    if segs.len() == 0 {
        Seq::empty()
    } else {
        seg_concat(segs.drop_last()) + segs.last()
    }
}

/// Leading part of a query URL, up to and including the record class.
/// The `basicspacedata` group keeps its own historical root, written out
/// here as its own case.
pub open spec fn base_path(base: Seq<char>, group: Seq<char>, class: Seq<char>) -> Seq<char> {
    if group == "basicspacedata"@ {
        base + "/basicspacedata/query/class/"@ + class + "/"@
    } else {
        base + "/"@ + group + "/query/class/"@ + class + "/"@
    }
}

/// Some clause already starts with `format/`.
pub open spec fn has_format_clause(segs: Seq<Seq<char>>) -> bool {
    exists|i: int| 0 <= i < segs.len() && starts_with(#[trigger] segs[i], "format/"@)
}

/// The trailing format segment: always present for a non-default format; for
/// the default one, left out when a clause already names a format.
pub open spec fn format_suffix(fmt: Format, segs: Seq<Seq<char>>) -> Seq<char> {
    if fmt != Format::Json {
        "format/"@ + fmt.token() + "/"@
    } else if has_format_clause(segs) {
        Seq::empty()
    } else {
        "format/json/"@
    }
}

/// The full query URL.
pub open spec fn url_of(
    base: Seq<char>,
    group: Seq<char>,
    class: Seq<char>,
    segs: Seq<Seq<char>>,
    fmt: Format,
) -> Seq<char> {
    base_path(base, group, class) + seg_concat(segs) + format_suffix(fmt, segs)
}

/// The clause that `limit(n)` adds.
pub open spec fn limit_clause(n: nat) -> Seq<char> {
    "limit/"@ + decimal(n) + "/"@
}

/// The state of a query builder as plain values.
pub struct QueryModel {
    pub base: Seq<char>,
    pub group: Seq<char>,
    pub class: Seq<char>,
    pub clauses: Seq<Seq<char>>,
    pub format: Format,
}

impl QueryModel {
    pub open spec fn add_clause(self, c: Seq<char>) -> QueryModel {
        QueryModel {
            base: self.base,
            group: self.group,
            class: self.class,
            clauses: self.clauses.push(c),
            format: self.format,
        }
    }

    pub open spec fn set_format(self, fmt: Format) -> QueryModel {
        QueryModel {
            base: self.base,
            group: self.group,
            class: self.class,
            clauses: self.clauses,
            format: fmt,
        }
    }

    pub open spec fn url(self) -> Seq<char> {
        url_of(self.base, self.group, self.class, self.clauses, self.format)
    }
}

/// The decode route that a successful response takes.
#[derive(Clone, Copy, Debug, PartialEq, Eq, Structural)]
pub enum Decoding {
    /// A JSON array of records.
    Json,
    /// CSV rows with a header line.
    Csv,
}

/// What the typed decode path answers for formats that have no generic
/// structural decode.
pub const RAW_PATH_HINT: &'static str = "use `execute_raw()` for TLE, XML, or other text formats";

/// Judges a response status: 200 is success, any other code fails with
/// `Http(code)` before the body is looked at.
pub fn accepted_status(status: u16) -> (r: Result<(), Error>)
    ensures
        status == 200 ==> r == Ok::<(), Error>(()),
        status != 200 ==> r == Err::<(), Error>(Error::Http(status)),
{
    if status == 200 {
        Ok(())
    } else {
        Err(Error::Http(status))
    }
}

/// The typed decode route for a format: JSON and CSV have one, every other
/// format is a configuration error that points at the raw-text path.
pub fn decoding_for(fmt: Format) -> (r: Result<Decoding, Error>)
    ensures
        fmt == Format::Json ==> r == Ok::<Decoding, Error>(Decoding::Json),
        fmt == Format::Csv ==> r == Ok::<Decoding, Error>(Decoding::Csv),
        fmt != Format::Json && fmt != Format::Csv ==> (r matches Err(Error::Config(m))
            && m@ == RAW_PATH_HINT@),
{
    match fmt {
        Format::Json => Ok(Decoding::Json),
        Format::Csv => Ok(Decoding::Csv),
        _ => Err(Error::Config(String::from_str(RAW_PATH_HINT))),
    }
}

/// The route of a response: a status other than 200 fails with
/// `Http(status)` whatever the format, so no body is decoded after it; a 200
/// takes the format's typed decode route.
pub fn response_route(status: u16, fmt: Format) -> (r: Result<Decoding, Error>)
    ensures
        status != 200 ==> r == Err::<Decoding, Error>(Error::Http(status)),
        status == 200 && fmt == Format::Json ==> r == Ok::<Decoding, Error>(Decoding::Json),
        status == 200 && fmt == Format::Csv ==> r == Ok::<Decoding, Error>(Decoding::Csv),
        status == 200 && fmt != Format::Json && fmt != Format::Csv ==> (r matches Err(
            Error::Config(m),
        ) && m@ == RAW_PATH_HINT@),
{
    match accepted_status(status) {
        Err(e) => Err(e),
        Ok(()) => decoding_for(fmt),
    }
}

/// Zero decoded records is a failure (`Empty`), never an empty success; any
/// other list is handed back unchanged.
pub fn non_empty<R>(records: Vec<R>) -> (r: Result<Vec<R>, Error>)
    ensures
        records@.len() == 0 ==> r == Err::<Vec<R>, Error>(Error::Empty),
        records@.len() > 0 ==> r == Ok::<Vec<R>, Error>(records),
{
    if records.len() == 0 {
        Err(Error::Empty)
    } else {
        Ok(records)
    }
}

/// The last decoded record, or `Empty` when there is none.
pub fn single<R>(records: Vec<R>) -> (r: Result<R, Error>)
    ensures
        records@.len() == 0 ==> r == Err::<R, Error>(Error::Empty),
        records@.len() > 0 ==> r == Ok::<R, Error>(records@.last()),
{
    let mut v = records;
    match v.pop() {
        Some(x) => Ok(x),
        None => Err(Error::Empty),
    }
}

/// Rendering keeps clauses in order: the rendering of a list followed by
/// more clauses is the rendering of the list followed by theirs.
pub proof fn lemma_seg_concat_append(first: Seq<Seq<char>>, later: Seq<Seq<char>>)
    ensures
        seg_concat(first + later) == seg_concat(first) + seg_concat(later),
    decreases later.len(),
{
    if later.len() == 0 {
        assert(first + later =~= first);
        assert(seg_concat(first) + seg_concat(later) =~= seg_concat(first));
    } else {
        lemma_seg_concat_append(first, later.drop_last());
        assert((first + later).drop_last() =~= first + later.drop_last());
        assert(seg_concat(first + later) =~= seg_concat(first) + seg_concat(later));
    }
}

/// Two clauses added one after the other stand in the URL right after the
/// earlier clauses, in the order they were added; swapping the two calls
/// swaps exactly those two pieces.
pub proof fn lemma_clause_order(m: QueryModel, a: Seq<char>, b: Seq<char>)
    ensures
        m.add_clause(a).add_clause(b).url() == base_path(m.base, m.group, m.class) + seg_concat(
            m.clauses,
        ) + a + b + format_suffix(m.format, m.clauses.push(a).push(b)),
{
    let segs = m.clauses.push(a).push(b);
    assert(segs.drop_last() =~= m.clauses.push(a));
    assert(m.clauses.push(a).drop_last() =~= m.clauses);
    assert(seg_concat(m.clauses.push(a)) == seg_concat(m.clauses) + a);
    assert(seg_concat(segs) == seg_concat(m.clauses.push(a)) + b);
    assert(seg_concat(segs) =~= seg_concat(m.clauses) + a + b);
    assert(m.add_clause(a).add_clause(b).url() =~= base_path(m.base, m.group, m.class)
        + seg_concat(m.clauses) + a + b + format_suffix(m.format, segs));
}


/// `w` stands in `s` starting at index `p`.
pub open spec fn occurs_at(s: Seq<char>, w: Seq<char>, p: int) -> bool {
    0 <= p && p + w.len() <= s.len() && s.subrange(p, p + w.len()) == w
}

/// `w` stands somewhere in `s`.
pub open spec fn occurs_in(s: Seq<char>, w: Seq<char>) -> bool {
    exists|p: int| occurs_at(s, w, p)
}

/// A word whose first character does not come back later in it, placed
/// between two texts that do not hold it, stands exactly once in the whole.
proof fn lemma_sole_occurrence(a: Seq<char>, w: Seq<char>, s: Seq<char>)
    requires
        w.len() > 0,
        forall|j: int| 0 < j < w.len() ==> #[trigger] w[j] != w[0],
        !occurs_in(a, w),
        !occurs_in(s, w),
    ensures
        occurs_at(a + w + s, w, a.len() as int),
        forall|p: int| occurs_at(a + w + s, w, p) ==> p == a.len(),
{
    let u = a + w + s;
    assert(u.subrange(a.len() as int, (a.len() + w.len()) as int) =~= w);
    assert forall|p: int| occurs_at(u, w, p) implies p == a.len() by {
        let sub = u.subrange(p, p + w.len());
        if p + w.len() <= a.len() {
            assert(a.subrange(p, p + w.len()) =~= sub);
            assert(occurs_at(a, w, p));
        } else if p < a.len() {
            let j = a.len() - p;
            assert(sub[j] == u[a.len() as int]);
            assert(u[a.len() as int] == w[0]);
            assert(sub[j] == w[j]);
        } else if a.len() < p < a.len() + w.len() {
            let j = p - a.len();
            assert(sub[0] == u[p]);
            assert(u[p] == w[j]);
            assert(sub[0] == w[0]);
        } else if p >= a.len() + w.len() {
            let q = p - a.len() - w.len();
            assert(s.subrange(q, q + w.len()) =~= sub);
            assert(occurs_at(s, w, q));
        }
    }
}

/// No format segment holds the letter `i`.
proof fn lemma_suffix_has_no_i(fmt: Format, segs: Seq<Seq<char>>)
    ensures
        forall|k: int| 0 <= k < format_suffix(fmt, segs).len() ==> #[trigger] format_suffix(
            fmt,
            segs,
        )[k] != 'i',
{
    reveal_strlit("format/");
    reveal_strlit("/");
    reveal_strlit("format/json/");
    reveal_strlit("json");
    reveal_strlit("csv");
    reveal_strlit("xml");
    reveal_strlit("html");
    reveal_strlit("tle");
    reveal_strlit("3le");
    reveal_strlit("kvn");
    let t = format_suffix(fmt, segs);
    if fmt != Format::Json {
        assert forall|k: int| 0 <= k < t.len() implies #[trigger] t[k] != 'i' by {
            if k < 7 {
                assert(t[k] == "format/"@[k]);
            } else if k < 7 + fmt.token().len() {
                assert(t[k] == fmt.token()[k - 7]);
            } else {
                assert(t[k] == '/');
            }
        }
    }
}

/// With the default format and no clause naming a format, the URL is the
/// base path and the clauses followed by a single `format/json/`; when the
/// base path and clauses do not themselves spell `format/json/`, that suffix
/// is its one occurrence in the URL.
pub proof fn lemma_default_format_suffix(m: QueryModel)
    requires
        m.format == Format::Json,
        !has_format_clause(m.clauses),
    ensures
        m.url() == base_path(m.base, m.group, m.class) + seg_concat(m.clauses) + "format/json/"@,
        !occurs_in(base_path(m.base, m.group, m.class) + seg_concat(m.clauses), "format/json/"@)
            ==> forall|p: int|
            occurs_at(m.url(), "format/json/"@, p) <==> p == m.url().len() - "format/json/"@.len(),
{
    let a = base_path(m.base, m.group, m.class) + seg_concat(m.clauses);
    let w = "format/json/"@;
    if !occurs_in(a, w) {
        reveal_strlit("format/json/");
        assert(w =~= seq!['f', 'o', 'r', 'm', 'a', 't', '/', 'j', 's', 'o', 'n', '/']);
        assert(!occurs_in(Seq::<char>::empty(), w));
        lemma_sole_occurrence(a, w, Seq::empty());
        assert(a + w + Seq::<char>::empty() =~= m.url());
    }
}

/// Choosing another format and then the default again renders as if only the
/// default had been chosen: one trailing format segment at most, never two.
pub proof fn lemma_format_reset(m: QueryModel, other: Format)
    ensures
        m.set_format(other).set_format(Format::Json).url() == m.set_format(Format::Json).url(),
        m.set_format(other).set_format(Format::Json).url() == base_path(m.base, m.group, m.class)
            + seg_concat(m.clauses) + format_suffix(Format::Json, m.clauses),
        format_suffix(Format::Json, m.clauses) == "format/json/"@ || format_suffix(
            Format::Json,
            m.clauses,
        ) == Seq::<char>::empty(),
{
}

/// Every token but the default one starts with a letter other than `j`.
proof fn lemma_other_token_start(fmt: Format)
    requires
        fmt != Format::Json,
    ensures
        fmt.token().len() > 0,
        fmt.token()[0] != 'j',
{
    reveal_strlit("csv");
    reveal_strlit("xml");
    reveal_strlit("html");
    reveal_strlit("tle");
    reveal_strlit("3le");
    reveal_strlit("kvn");
}

/// Choosing another format and then the default again, where neither the base
/// path nor the clauses spell `format/`, leaves exactly one `format/` in the
/// URL, the trailing `format/json/`, and no segment of the other format.
pub proof fn lemma_format_reset_single_segment(m: QueryModel, other: Format)
    requires
        !has_format_clause(m.clauses),
        !occurs_in(base_path(m.base, m.group, m.class) + seg_concat(m.clauses), "format/"@),
    ensures
        ({
            let u = m.set_format(other).set_format(Format::Json).url();
            let a = base_path(m.base, m.group, m.class) + seg_concat(m.clauses);
            &&& u == a + "format/json/"@
            &&& forall|p: int| occurs_at(u, "format/"@, p) <==> p == a.len()
            &&& other != Format::Json ==> !occurs_in(u, "format/"@ + other.token() + "/"@)
        }),
{
    reveal_strlit("format/");
    reveal_strlit("format/json/");
    reveal_strlit("json/");
    let u = m.set_format(other).set_format(Format::Json).url();
    let a = base_path(m.base, m.group, m.class) + seg_concat(m.clauses);
    let f = "format/"@;
    let rest = "json/"@;
    assert(f =~= seq!['f', 'o', 'r', 'm', 'a', 't', '/']);
    assert("format/json/"@ =~= f + rest);
    assert(!occurs_in(rest, f));
    lemma_sole_occurrence(a, f, rest);
    assert(u =~= a + f + rest);
    if other != Format::Json {
        lemma_other_token_start(other);
        let x = f + other.token() + "/"@;
        if occurs_in(u, x) {
            let p = choose|p: int| occurs_at(u, x, p);
            assert(u.subrange(p, p + x.len()).subrange(0, 7) =~= u.subrange(p, p + 7));
            assert(x.subrange(0, 7) =~= f);
            assert(occurs_at(u, f, p));
            assert(u[a.len() + 7int] == 'j');
            assert(u.subrange(p, p + x.len())[7] == x[7]);
            assert(x[7] == other.token()[0]);
        }
    }
}

/// On a query with no limit clause, `limit(1)` leaves exactly one limit
/// clause, `limit/1/`, and it is the last one.
pub proof fn lemma_single_limit_clause(m: QueryModel)
    requires
        forall|i: int| 0 <= i < m.clauses.len() ==> !starts_with(#[trigger] m.clauses[i], "limit/"@),
    ensures
        m.add_clause(limit_clause(1)).clauses.last() == "limit/1/"@,
        forall|i: int|
            0 <= i < m.add_clause(limit_clause(1)).clauses.len() ==> (starts_with(
                #[trigger] m.add_clause(limit_clause(1)).clauses[i],
                "limit/"@,
            ) <==> i == m.clauses.len()),
{
    reveal_strlit("limit/");
    reveal_strlit("limit/1/");
    reveal_strlit("/");
    assert(decimal(1) =~= seq!['1']);
    assert(limit_clause(1) =~= "limit/1/"@);
    let c = m.add_clause(limit_clause(1)).clauses;
    assert(c.last() == limit_clause(1));
    assert(starts_with(limit_clause(1), "limit/"@)) by {
        assert(limit_clause(1).subrange(0, 6) =~= "limit/"@);
    }
    assert forall|i: int| 0 <= i < c.len() implies (starts_with(#[trigger] c[i], "limit/"@) <==> i
        == m.clauses.len()) by {
        if i < m.clauses.len() {
            assert(c[i] == m.clauses[i]);
        }
    }
}

/// After `limit(1)`, where the base path and the earlier clauses do not spell
/// `limit/1/`, the URL holds `limit/1/` exactly once, right after them.
pub proof fn lemma_single_limit_in_url(m: QueryModel)
    requires
        !occurs_in(base_path(m.base, m.group, m.class) + seg_concat(m.clauses), "limit/1/"@),
    ensures
        ({
            let u = m.add_clause(limit_clause(1)).url();
            let a = base_path(m.base, m.group, m.class) + seg_concat(m.clauses);
            forall|p: int| occurs_at(u, "limit/1/"@, p) <==> p == a.len()
        }),
{
    reveal_strlit("limit/");
    reveal_strlit("limit/1/");
    reveal_strlit("/");
    let w = "limit/1/"@;
    assert(w =~= seq!['l', 'i', 'm', 'i', 't', '/', '1', '/']);
    assert(decimal(1) =~= seq!['1']);
    assert(limit_clause(1) =~= w);
    let m2 = m.add_clause(limit_clause(1));
    let a = base_path(m.base, m.group, m.class) + seg_concat(m.clauses);
    let sfx = format_suffix(m.format, m2.clauses);
    assert(m2.clauses.drop_last() =~= m.clauses);
    assert(seg_concat(m2.clauses) == seg_concat(m.clauses) + w);
    assert(m2.url() =~= a + w + sfx);
    lemma_suffix_has_no_i(m.format, m2.clauses);
    if occurs_in(sfx, w) {
        let q = choose|q: int| occurs_at(sfx, w, q);
        assert(sfx.subrange(q, q + 8)[1] == sfx[q + 1]);
    }
    lemma_sole_occurrence(a, w, sfx);
}

/// Fluent builder for one query against one record class, parameterised on
/// the record type `T` that its rows decode into.
#[derive(Debug)]
pub struct QueryBuilder<'a, T> {
    client: &'a SpaceTrackClient,
    controller: &'static str,
    class: &'static str,
    segments: Vec<String>,
    format: Format,
    _phantom: std::marker::PhantomData<T>,
}

impl<'a, T> View for QueryBuilder<'a, T> {
    type V = QueryModel;

    closed spec fn view(&self) -> QueryModel {
        QueryModel {
            base: self.client.base_address(),
            group: self.controller@,
            class: self.class@,
            clauses: self.segments@.map_values(|s: String| s@),
            format: self.format,
        }
    }
}

impl<'a, T> QueryBuilder<'a, T> {
    pub fn new(client: &'a SpaceTrackClient, controller: &'static str, class: &'static str) -> (r:
        Self)
        ensures
            r@.base == client.base_address(),
            r@.group == controller@,
            r@.class == class@,
            r@.clauses == Seq::<Seq<char>>::empty(),
            r@.format == Format::Json,
    {
        let r = QueryBuilder {
            client,
            controller,
            class,
            segments: Vec::new(),
            format: Format::default(),
            _phantom: std::marker::PhantomData,
        };
        assert(r@.clauses =~= Seq::<Seq<char>>::empty());
        r
    }

    fn push_clause(self, c: String) -> (r: Self)
        ensures
            r@ == self@.add_clause(c@),
    {
        let mut b = self;
        b.segments.push(c);
        assert(b@.clauses =~= self@.clauses.push(c@));
        b
    }

    /// Adds the clause `{field}/{value}/`.
    pub fn filter(self, field: &str, value: &str) -> (r: Self)
        ensures
            r@ == self@.add_clause(field@ + "/"@ + value@ + "/"@),
    {
        let mut c = String::from_str(field);
        c.append("/");
        c.append(value);
        c.append("/");
        self.push_clause(c)
    }

    /// Adds the clause `limit/{n}/`.
    pub fn limit(self, n: u32) -> (r: Self)
        ensures
            r@ == self@.add_clause(limit_clause(n as nat)),
    {
        let mut c = String::from_str("limit/");
        push_decimal(&mut c, n);
        c.append("/");
        self.push_clause(c)
    }

    /// Adds the clause `orderby/{clause}/`, e.g. `"EPOCH desc"`.
    pub fn order_by(self, clause: &str) -> (r: Self)
        ensures
            r@ == self@.add_clause("orderby/"@ + clause@ + "/"@),
    {
        let mut c = String::from_str("orderby/");
        c.append(clause);
        c.append("/");
        self.push_clause(c)
    }

    /// Chooses the response format; the last choice wins.
    pub fn format(self, fmt: Format) -> (r: Self)
        ensures
            r@ == self@.set_format(fmt),
    {
        let mut b = self;
        b.format = fmt;
        b
    }

    /// The format that the response will be asked in.
    pub fn chosen_format(&self) -> (r: Format)
        ensures
            r == self@.format,
    {
        self.format
    }

    /// The session that this query runs on.
    pub fn client(&self) -> (r: &'a SpaceTrackClient)
        ensures
            r.base_address() == self@.base,
    {
        self.client
    }

    fn has_format_segment(&self) -> (r: bool)
        ensures
            r == has_format_clause(self@.clauses),
    {
        let mut i: usize = 0;
        while i < self.segments.len()
            invariant
                i <= self.segments@.len(),
                forall|j: int|
                    0 <= j < i ==> !starts_with(#[trigger] self@.clauses[j], "format/"@),
            decreases self.segments@.len() - i,
        {
            if str_starts_with(self.segments[i].as_str(), "format/") {
                assert(starts_with(self@.clauses[i as int], "format/"@));
                return true;
            }
            i += 1;
        }
        false
    }

    /// The query URL: base path, then every clause in insertion order, then
    /// the format segment.
    pub fn build_url(&self) -> (r: String)
        ensures
            r@ == self@.url(),
    {
        let ghost m = self@;
        let mut url = String::from_str(self.client.base_url());
        if str_eq(self.controller, "basicspacedata") {
            url.append("/basicspacedata/query/class/");
        } else {
            url.append("/");
            url.append(self.controller);
            url.append("/query/class/");
        }
        url.append(self.class);
        url.append("/");
        assert(url@ == base_path(m.base, m.group, m.class));
        let mut i: usize = 0;
        while i < self.segments.len()
            invariant
                i <= m.clauses.len(),
                m == self@,
                url@ == base_path(m.base, m.group, m.class) + seg_concat(m.clauses.take(i as int)),
            decreases self.segments@.len() - i,
        {
            url.append(self.segments[i].as_str());
            assert(m.clauses.take(i + 1).drop_last() =~= m.clauses.take(i as int));
            i += 1;
        }
        assert(m.clauses.take(i as int) =~= m.clauses);
        if self.format != Format::Json {
            url.append("format/");
            url.append(self.format.as_str());
            url.append("/");
        } else if !self.has_format_segment() {
            url.append("format/json/");
        }
        assert(url@ =~= m.url());
        url
    }
}

} // verus!
