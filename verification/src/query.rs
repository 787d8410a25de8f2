//! The queries of a batch.

use vstd::prelude::*;

use crate::json::{array, no_members, object, push_member, text, Json, JsonView};
use crate::table::lookup;
use crate::text::own;

verus! {

/// What a query asks for.
#[derive(Debug, Clone)]
enum MatchQueryKind {
    Purl(String),
    Package { name: String, ecosystem: String, version: String },
    Cpe(String),
}

/// A query for one coordinate: a package URL, a package and its version, or a CPE,
/// and never two of these.
#[derive(Debug, Clone)]
pub struct MatchQuery(MatchQueryKind);

pub enum MatchQueryView {
    Purl(Seq<char>),
    Package { name: Seq<char>, ecosystem: Seq<char>, version: Seq<char> },
    Cpe(Seq<char>),
}

impl DeepView for MatchQuery {
    type V = MatchQueryView;

    closed spec fn deep_view(&self) -> MatchQueryView {
        match self.0 {
            MatchQueryKind::Purl(p) => MatchQueryView::Purl(p@),
            MatchQueryKind::Package { name, ecosystem, version } => MatchQueryView::Package {
                name: name@,
                ecosystem: ecosystem@,
                version: version@,
            },
            MatchQueryKind::Cpe(c) => MatchQueryView::Cpe(c@),
        }
    }
}

/// A query as it is sent.
pub open spec fn query_json(q: MatchQueryView) -> JsonView {
    match q {
        MatchQueryView::Purl(p) => JsonView::Object(seq![("purl"@, JsonView::Text(p))]),
        MatchQueryView::Package { name, ecosystem, version } => JsonView::Object(
            seq![
                (
                    "package"@,
                    JsonView::Object(
                        seq![
                            ("name"@, JsonView::Text(name)),
                            ("ecosystem"@, JsonView::Text(ecosystem)),
                        ],
                    ),
                ),
                ("version"@, JsonView::Text(version)),
            ],
        ),
        MatchQueryView::Cpe(c) => JsonView::Object(seq![("cpe"@, JsonView::Text(c))]),
    }
}

impl MatchQuery {
    pub fn purl(p: &str) -> (r: Self)
        ensures
            r.deep_view() == MatchQueryView::Purl(p@),
    {
        MatchQuery(MatchQueryKind::Purl(own(p)))
    }

    pub fn package(name: &str, ecosystem: &str, version: &str) -> (r: Self)
        ensures
            r.deep_view() == (MatchQueryView::Package {
                name: name@,
                ecosystem: ecosystem@,
                version: version@,
            }),
    {
        MatchQuery(
            MatchQueryKind::Package {
                name: own(name),
                ecosystem: own(ecosystem),
                version: own(version),
            },
        )
    }

    pub fn cpe(c: &str) -> (r: Self)
        ensures
            r.deep_view() == MatchQueryView::Cpe(c@),
    {
        MatchQuery(MatchQueryKind::Cpe(own(c)))
    }

    /// The query as it is sent.
    pub fn to_json(&self) -> (r: Json)
        ensures
            r.deep_view() == query_json(self.deep_view()),
    {
        let mut m = no_members();
        match &self.0 {
            MatchQueryKind::Purl(p) => {
                push_member(&mut m, "purl", text(p.as_str()));
                assert(m.deep_view() =~= query_json(self.deep_view())->Object_0);
            },
            MatchQueryKind::Cpe(c) => {
                push_member(&mut m, "cpe", text(c.as_str()));
                assert(m.deep_view() =~= query_json(self.deep_view())->Object_0);
            },
            MatchQueryKind::Package { name, ecosystem, version } => {
                let mut p = no_members();
                push_member(&mut p, "name", text(name.as_str()));
                push_member(&mut p, "ecosystem", text(ecosystem.as_str()));
                assert(p.deep_view() =~= seq![
                    ("name"@, JsonView::Text(name@)),
                    ("ecosystem"@, JsonView::Text(ecosystem@)),
                ]);
                push_member(&mut m, "package", object(p));
                push_member(&mut m, "version", text(version.as_str()));
                assert(m.deep_view() =~= query_json(self.deep_view())->Object_0);
            },
        }
        object(m)
    }
}

/// A query is sent with a package URL, or a package, or a CPE, and with a version
/// of its own only beside a package.
pub proof fn a_query_has_one_shape(q: MatchQueryView)
    ensures
        ({
            let j = query_json(q);
            &&& j.member("purl"@) is Some <==> q is Purl
            &&& j.member("package"@) is Some <==> q is Package
            &&& j.member("cpe"@) is Some <==> q is Cpe
            &&& j.member("version"@) is Some <==> q is Package
        }),
{
    reveal_strlit("purl");
    reveal_strlit("package");
    reveal_strlit("cpe");
    reveal_strlit("version");
    assert("purl"@.len() == 4 && "package"@.len() == 7 && "cpe"@.len() == 3 && "version"@.len()
        == 7);
    assert("package"@[0] != "version"@[0]);
    let m = query_json(q)->Object_0;
    reveal_with_fuel(lookup, 3);
    assert(m.drop_last().len() == m.len() - 1);
}

/// The queries of a batch as they are sent; `strict` is left out where it is not
/// set.
pub open spec fn request_json(queries: Seq<MatchQueryView>, strict: bool) -> JsonView {
    let m = seq![
        ("queries"@, JsonView::Array(Seq::new(queries.len(), |i: int| query_json(queries[i])))),
    ];
    JsonView::Object(
        if strict {
            m.push(("strict"@, JsonView::Bool(true)))
        } else {
            m
        },
    )
}

/// The request for the queries from `from` up to `to`.
pub fn batch_request(queries: &Vec<MatchQuery>, from: usize, to: usize, strict: bool) -> (r: Json)
    requires
        from <= to <= queries@.len(),
    ensures
        r.deep_view() == request_json(
            queries.deep_view().subrange(from as int, to as int),
            strict,
        ),
{
    let ghost q = queries.deep_view().subrange(from as int, to as int);
    let mut items: Vec<Json> = Vec::new();
    let mut i: usize = from;
    while i < to
        invariant
            from <= i <= to <= queries@.len(),
            q == queries.deep_view().subrange(from as int, to as int),
            items@.len() == i - from,
            forall|k: int| 0 <= k < i - from ==> (#[trigger] items@[k]).deep_view() == query_json(q[k]),
        decreases to - i,
    {
        items.push(queries[i].to_json());
        i += 1;
    }
    let mut m = no_members();
    let list = array(items);
    assert(list.deep_view()->Array_0 =~= Seq::new(q.len(), |k: int| query_json(q[k])));
    push_member(&mut m, "queries", list);
    if strict {
        push_member(&mut m, "strict", Json::Bool(true));
    }
    assert(m.deep_view() =~= request_json(q, strict)->Object_0);
    object(m)
}

} // verus!
