//! JSON values.

use vstd::prelude::*;

use crate::table::lookup;
use crate::text::{opt_str_view, opt_view, own, same, views};

verus! {

/// A floating-point number: as JSON writes it, as it is shown, and a hundred and a
/// thousand times it without the fraction, by which values are ranked.
#[derive(Debug, Clone)]
pub struct Real {
    pub text: String,
    pub shown: String,
    pub hundredths: i64,
    pub thousandths: i64,
}

pub struct RealView {
    pub text: Seq<char>,
    pub shown: Seq<char>,
    pub hundredths: i64,
    pub thousandths: i64,
}

impl DeepView for Real {
    type V = RealView;

    open spec fn deep_view(&self) -> RealView {
        RealView {
            text: self.text@,
            shown: self.shown@,
            hundredths: self.hundredths,
            thousandths: self.thousandths,
        }
    }
}

impl Real {
    pub fn copy(&self) -> (r: Real)
        ensures
            r.deep_view() == self.deep_view(),
    {
        Real {
            text: self.text.clone(),
            shown: self.shown.clone(),
            hundredths: self.hundredths,
            thousandths: self.thousandths,
        }
    }
}

/// A JSON number: as it is printed, as a floating-point number, and as an
/// unsigned integer where it is one.
#[derive(Debug, Clone)]
pub struct Numeral {
    pub text: String,
    pub real: Real,
    pub unsigned: Option<u64>,
}

pub struct NumeralView {
    pub text: Seq<char>,
    pub real: RealView,
    pub unsigned: Option<u64>,
}

impl DeepView for Numeral {
    type V = NumeralView;

    open spec fn deep_view(&self) -> NumeralView {
        NumeralView {
            text: self.text@,
            real: self.real.deep_view(),
            unsigned: self.unsigned,
        }
    }
}

impl Numeral {
    pub fn copy(&self) -> (r: Numeral)
        ensures
            r.deep_view() == self.deep_view(),
    {
        Numeral { text: self.text.clone(), real: self.real.copy(), unsigned: self.unsigned }
    }
}

/// A JSON value. The members of an object stand in the order in which they are
/// walked.
#[derive(Debug)]
pub enum Json {
    Null,
    Bool(bool),
    Number(Numeral),
    Text(String),
    Array(Vec<Json>),
    Object(Vec<(String, Json)>),
}

pub enum JsonView {
    Null,
    Bool(bool),
    Number(NumeralView),
    Text(Seq<char>),
    Array(Seq<JsonView>),
    Object(Seq<(Seq<char>, JsonView)>),
}

pub open spec fn json_view(j: Json) -> JsonView
    decreases j,
{
    match j {
        Json::Null => JsonView::Null,
        Json::Bool(b) => JsonView::Bool(b),
        Json::Number(n) => JsonView::Number(n.deep_view()),
        Json::Text(s) => JsonView::Text(s@),
        Json::Array(v) => JsonView::Array(
            Seq::new(
                v@.len(),
                |i: int|
                    if 0 <= i < v@.len() {
                        json_view(v@[i])
                    } else {
                        JsonView::Null
                    },
            ),
        ),
        Json::Object(v) => JsonView::Object(
            Seq::new(
                v@.len(),
                |i: int|
                    if 0 <= i < v@.len() {
                        (v@[i].0@, json_view(v@[i].1))
                    } else {
                        (Seq::empty(), JsonView::Null)
                    },
            ),
        ),
    }
}

impl DeepView for Json {
    type V = JsonView;

    open spec fn deep_view(&self) -> JsonView {
        json_view(*self)
    }
}

impl JsonView {
    /// The value of the member `k` of an object.
    pub open spec fn member(self, k: Seq<char>) -> Option<JsonView> {
        match self {
            JsonView::Object(m) => lookup(m, k),
            _ => None,
        }
    }

    pub open spec fn text(self) -> Option<Seq<char>> {
        match self {
            JsonView::Text(s) => Some(s),
            _ => None,
        }
    }

    pub open spec fn items(self) -> Option<Seq<JsonView>> {
        match self {
            JsonView::Array(s) => Some(s),
            _ => None,
        }
    }

    pub open spec fn unsigned(self) -> Option<u64> {
        match self {
            JsonView::Number(n) => n.unsigned,
            _ => None,
        }
    }

    pub open spec fn as_float(self) -> Option<RealView> {
        match self {
            JsonView::Number(n) => Some(n.real),
            _ => None,
        }
    }

    /// The text of the member `k` of an object.
    pub open spec fn member_text(self, k: Seq<char>) -> Option<Seq<char>> {
        match self.member(k) {
            Some(v) => v.text(),
            None => None,
        }
    }

    /// The items of the member `k` of an object.
    pub open spec fn member_items(self, k: Seq<char>) -> Option<Seq<JsonView>> {
        match self.member(k) {
            Some(v) => v.items(),
            None => None,
        }
    }
}

/// The view of an optional value that is borrowed.
pub open spec fn opt_json(v: Option<&Json>) -> Option<JsonView> {
    match v {
        Some(j) => Some(j.deep_view()),
        None => None,
    }
}

impl Json {
    /// The value of the member `k` of an object.
    pub fn get(&self, k: &str) -> (r: Option<&Json>)
        ensures
            opt_json(r) == self.deep_view().member(k@),
    {
        match self {
            Json::Object(v) => {
                let ghost m = self.deep_view()->Object_0;
                let mut p: usize = v.len();
                assert(m.take(m.len() as int) =~= m);
                while p > 0
                    invariant
                        p <= v@.len(),
                        *self == Json::Object(*v),
                        self.deep_view() == JsonView::Object(m),
                        m.len() == v@.len(),
                        forall|i: int|
                            0 <= i < m.len() ==> #[trigger] m[i] == (
                                v@[i].0@,
                                v@[i].1.deep_view(),
                            ),
                        lookup(m, k@) == lookup(m.take(p as int), k@),
                    decreases p,
                {
                    assert(m.take(p as int).drop_last() =~= m.take(p - 1));
                    assert(m.take(p as int).last() == m[p - 1]);
                    if same(v[p - 1].0.as_str(), k) {
                        return Some(&v[p - 1].1);
                    }
                    p -= 1;
                }
                None
            },
            _ => None,
        }
    }

    pub fn as_str(&self) -> (r: Option<&str>)
        ensures
            opt_str_view(r) == self.deep_view().text(),
    {
        match self {
            Json::Text(s) => Some(s.as_str()),
            _ => None,
        }
    }

    pub fn as_array(&self) -> (r: Option<&Vec<Json>>)
        ensures
            match r {
                Some(v) => self.deep_view().items() == Some(v.deep_view()),
                None => self.deep_view().items() is None,
            },
    {
        match self {
            Json::Array(v) => {
                assert(self.deep_view()->Array_0 =~= v.deep_view());
                Some(v)
            },
            _ => None,
        }
    }

    pub fn as_u64(&self) -> (r: Option<u64>)
        ensures
            r == self.deep_view().unsigned(),
    {
        match self {
            Json::Number(n) => n.unsigned,
            _ => None,
        }
    }

    /// The value as a floating-point number, where it is a number.
    pub fn as_real(&self) -> (r: Option<Real>)
        ensures
            r.deep_view() == self.deep_view().as_float(),
    {
        match self {
            Json::Number(n) => Some(n.real.copy()),
            _ => None,
        }
    }

    /// The text of the member `k` of an object.
    pub fn get_str(&self, k: &str) -> (r: Option<&str>)
        ensures
            opt_str_view(r) == self.deep_view().member_text(k@),
    {
        match self.get(k) {
            Some(v) => v.as_str(),
            None => None,
        }
    }

    /// The items of the member `k` of an object.
    pub fn get_array(&self, k: &str) -> (r: Option<&Vec<Json>>)
        ensures
            match r {
                Some(v) => self.deep_view().member_items(k@) == Some(v.deep_view()),
                None => self.deep_view().member_items(k@) is None,
            },
    {
        match self.get(k) {
            Some(v) => v.as_array(),
            None => None,
        }
    }

    /// A copy of the value.
    pub fn copy(&self) -> (r: Json)
        ensures
            r.deep_view() == self.deep_view(),
        decreases self,
    {
        match self {
            Json::Null => Json::Null,
            Json::Bool(b) => Json::Bool(*b),
            Json::Number(n) => Json::Number(n.copy()),
            Json::Text(s) => Json::Text(s.clone()),
            Json::Array(v) => {
                let mut out: Vec<Json> = Vec::new();
                let mut i: usize = 0;
                while i < v.len()
                    invariant
                        i <= v@.len(),
                        out@.len() == i,
                        *self == Json::Array(*v),
                        forall|k: int|
                            0 <= k < i ==> (#[trigger] out@[k]).deep_view() == v@[k].deep_view(),
                    decreases v@.len() - i,
                {
                    assert(decreases_to!(*self => (*self)->Array_0));
                    assert(decreases_to!(*v => v@));
                    assert(decreases_to!(v@ => v@[i as int]));
                    out.push(v[i].copy());
                    i += 1;
                }
                let r = Json::Array(out);
                assert(r.deep_view()->Array_0 =~= self.deep_view()->Array_0);
                r
            },
            Json::Object(v) => {
                let mut out: Vec<(String, Json)> = Vec::new();
                let mut i: usize = 0;
                while i < v.len()
                    invariant
                        i <= v@.len(),
                        out@.len() == i,
                        *self == Json::Object(*v),
                        forall|k: int|
                            0 <= k < i ==> (#[trigger] out@[k]).0@ == v@[k].0@
                                && out@[k].1.deep_view() == v@[k].1.deep_view(),
                    decreases v@.len() - i,
                {
                    assert(decreases_to!(*self => (*self)->Object_0));
                    assert(decreases_to!(*v => v@));
                    assert(decreases_to!(v@ => v@[i as int]));
                    assert(decreases_to!(v@[i as int] => v@[i as int].1));
                    out.push((v[i].0.clone(), v[i].1.copy()));
                    i += 1;
                }
                let r = Json::Object(out);
                assert(r.deep_view()->Object_0 =~= self.deep_view()->Object_0);
                r
            },
        }
    }
}

impl Clone for Json {
    fn clone(&self) -> (r: Self)
        ensures
            r.deep_view() == self.deep_view(),
    {
        self.copy()
    }
}

/// A copy of an optional value that is borrowed.
pub fn copy_opt(v: Option<&Json>) -> (r: Option<Json>)
    ensures
        r.deep_view() == opt_json(v),
{
    match v {
        Some(j) => Some(j.copy()),
        None => None,
    }
}

// ── Building values ──────────────────────────────────────────────────────────

/// The object with these members.
pub fn object(members: Vec<(String, Json)>) -> (r: Json)
    ensures
        r.deep_view() == JsonView::Object(members.deep_view()),
{
    let r = Json::Object(members);
    assert(r.deep_view()->Object_0 =~= members.deep_view());
    r
}

/// The array of these items.
pub fn array(items: Vec<Json>) -> (r: Json)
    ensures
        r.deep_view() == JsonView::Array(items.deep_view()),
{
    let r = Json::Array(items);
    assert(r.deep_view()->Array_0 =~= items.deep_view());
    r
}

pub fn text(s: &str) -> (r: Json)
    ensures
        r.deep_view() == JsonView::Text(s@),
{
    Json::Text(own(s))
}

/// A text, or null where there is none.
pub open spec fn text_or_null(s: Option<Seq<char>>) -> JsonView {
    match s {
        Some(x) => JsonView::Text(x),
        None => JsonView::Null,
    }
}

pub fn opt_text(s: &Option<String>) -> (r: Json)
    ensures
        r.deep_view() == text_or_null(opt_view(*s)),
{
    match s {
        Some(x) => text(x.as_str()),
        None => Json::Null,
    }
}

/// A value, or null where there is none.
pub open spec fn value_or_null(v: Option<JsonView>) -> JsonView {
    match v {
        Some(x) => x,
        None => JsonView::Null,
    }
}

pub fn opt_value(v: &Option<Json>) -> (r: Json)
    ensures
        r.deep_view() == value_or_null(v.deep_view()),
{
    match v {
        Some(x) => x.copy(),
        None => Json::Null,
    }
}

/// A floating-point number as a value.
pub open spec fn real_value(x: RealView) -> JsonView {
    JsonView::Number(NumeralView { text: x.text, real: x, unsigned: None })
}

pub fn real_number(x: &Real) -> (r: Json)
    ensures
        r.deep_view() == real_value(x.deep_view()),
{
    Json::Number(Numeral { text: x.text.clone(), real: x.copy(), unsigned: None })
}

/// The array of these texts.
pub open spec fn text_items(v: Seq<Seq<char>>) -> JsonView {
    JsonView::Array(Seq::new(v.len(), |i: int| JsonView::Text(v[i])))
}

pub fn text_array(v: &Vec<String>) -> (r: Json)
    ensures
        r.deep_view() == text_items(views(v@)),
{
    let mut out: Vec<Json> = Vec::new();
    let mut i: usize = 0;
    while i < v.len()
        invariant
            i <= v@.len(),
            out@.len() == i,
            forall|k: int|
                0 <= k < i ==> (#[trigger] out@[k]).deep_view() == JsonView::Text(v@[k]@),
        decreases v@.len() - i,
    {
        out.push(text(v[i].as_str()));
        i += 1;
    }
    let r = array(out);
    assert(r.deep_view()->Array_0 =~= text_items(views(v@))->Array_0);
    r
}

/// The members with one more, where there is a value for it.
pub open spec fn with_member(
    m: Seq<(Seq<char>, JsonView)>,
    key: Seq<char>,
    value: Option<JsonView>,
) -> Seq<(Seq<char>, JsonView)> {
    match value {
        Some(v) => m.push((key, v)),
        None => m,
    }
}

/// Adds a member.
pub fn push_member(m: &mut Vec<(String, Json)>, key: &str, value: Json)
    ensures
        final(m).deep_view() == old(m).deep_view().push((key@, value.deep_view())),
{
    let ghost before = m.deep_view();
    m.push((own(key), value));
    assert(m.deep_view() =~= before.push((key@, value.deep_view())));
}

/// Adds a member, where there is a value for it.
pub fn push_opt_member(m: &mut Vec<(String, Json)>, key: &str, value: Option<Json>)
    ensures
        final(m).deep_view() == with_member(old(m).deep_view(), key@, value.deep_view()),
{
    if let Some(v) = value {
        push_member(m, key, v);
    }
}

/// A list of members to begin with.
pub fn no_members() -> (r: Vec<(String, Json)>)
    ensures
        r.deep_view() == Seq::<(Seq<char>, JsonView)>::empty(),
{
    let r: Vec<(String, Json)> = Vec::new();
    assert(r.deep_view() =~= Seq::<(Seq<char>, JsonView)>::empty());
    r
}

} // verus!
