//! The JSON values that requests are made of.
use vstd::prelude::*;

verus! {

/// What a [`Json`] value stands for.
pub enum JsonView {
    Bool(bool),
    Int(int),
    /// `mantissa * 10^-scale`
    Decimal { mantissa: int, scale: nat },
    Str(Seq<char>),
    Array(Seq<JsonView>),
    /// The fields in the order in which they are written.
    Object(Seq<(Seq<char>, JsonView)>),
}

/// A JSON value. A number with a fractional part is held as a decimal, `mantissa * 10^-scale`.
#[derive(Debug, PartialEq, Eq)]
pub enum Json {
    Bool(bool),
    Int(i128),
    Decimal { mantissa: i64, scale: u32 },
    Str(String),
    Array(Vec<Json>),
    Object(Vec<(String, Json)>),
}

impl Json {
    /// What the value stands for.
    pub open spec fn value(self) -> JsonView
        decreases self,
    {
        match self {
            Json::Bool(b) => JsonView::Bool(b),
            Json::Int(n) => JsonView::Int(n as int),
            Json::Decimal { mantissa, scale } => JsonView::Decimal {
                mantissa: mantissa as int,
                scale: scale as nat,
            },
            Json::Str(s) => JsonView::Str(s@),
            Json::Array(items) => JsonView::Array(
                Seq::new(
                    items@.len(),
                    |i: int|
                        if 0 <= i < items@.len() {
                            items@[i].value()
                        } else {
                            arbitrary()
                        },
                ),
            ),
            Json::Object(fields) => JsonView::Object(
                Seq::new(
                    fields@.len(),
                    |i: int|
                        if 0 <= i < fields@.len() {
                            (fields@[i].0@, fields@[i].1.value())
                        } else {
                            arbitrary()
                        },
                ),
            ),
        }
    }

    /// A string value.
    pub fn string(s: &str) -> (r: Json)
        ensures
            r@ == JsonView::Str(s@),
    {
        Json::Str(s.to_owned())
    }

    /// An array of the given items.
    pub fn array(items: Vec<Json>) -> (r: Json)
        ensures
            r@ == JsonView::Array(json_views(items@)),
    {
        let r = Json::Array(items);
        assert(r@->Array_0 =~= json_views(items@));
        r
    }

    /// An array without items.
    pub fn empty_array() -> (r: Json)
        ensures
            r@ == JsonView::Array(Seq::empty()),
    {
        let r = Json::array(Vec::new());
        assert(r@->Array_0 =~= Seq::empty());
        r
    }

    /// An array of strings.
    pub fn strings(items: &Vec<String>) -> (r: Json)
        ensures
            r@ == JsonView::Array(string_views(items@).map_values(|s: Seq<char>| JsonView::Str(s))),
    {
        let mut out: Vec<Json> = Vec::new();
        let mut i: usize = 0;
        while i < items.len()
            invariant
                i <= items@.len(),
                out@.len() == i,
                forall|k: int| 0 <= k < i ==> #[trigger] out@[k]@ == JsonView::Str(items@[k]@),
            decreases items@.len() - i,
        {
            out.push(Json::string(items[i].as_str()));
            i += 1;
        }
        assert(json_views(out@) =~= string_views(items@).map_values(|s: Seq<char>| JsonView::Str(s)));
        Json::array(out)
    }

    /// `n` zeros.
    pub fn zeros(n: usize) -> (r: Json)
        ensures
            r@ == JsonView::Array(Seq::new(n as nat, |i: int| JsonView::Int(0))),
    {
        let mut out: Vec<Json> = Vec::new();
        let mut i: usize = 0;
        while i < n
            invariant
                i <= n,
                out@.len() == i,
                forall|k: int| 0 <= k < i ==> #[trigger] out@[k]@ == JsonView::Int(0),
            decreases n - i,
        {
            out.push(Json::Int(0));
            i += 1;
        }
        assert(json_views(out@) =~= Seq::new(n as nat, |i: int| JsonView::Int(0)));
        Json::array(out)
    }
}

impl View for Json {
    type V = JsonView;

    open spec fn view(&self) -> JsonView {
        self.value()
    }
}

/// What each of the items stands for.
pub open spec fn json_views(items: Seq<Json>) -> Seq<JsonView> {
    Seq::new(items.len(), |i: int| items[i]@)
}

/// The characters of each of the strings.
pub open spec fn string_views(items: Seq<String>) -> Seq<Seq<char>> {
    Seq::new(items.len(), |i: int| items[i]@)
}

/// No fields.
pub open spec fn no_fields() -> Seq<(Seq<char>, JsonView)> {
    Seq::empty()
}

/// The fields of an object under construction.
pub struct Fields {
    fields: Vec<(String, Json)>,
}

impl View for Fields {
    type V = Seq<(Seq<char>, JsonView)>;

    closed spec fn view(&self) -> Seq<(Seq<char>, JsonView)> {
        Seq::new(self.fields@.len(), |i: int| (self.fields@[i].0@, self.fields@[i].1@))
    }
}

impl Fields {
    /// No fields.
    pub fn new() -> (r: Fields)
        ensures
            r@ == no_fields(),
    {
        Fields { fields: Vec::new() }
    }

    /// These fields and one more behind them.
    pub fn with(self, key: &str, value: Json) -> (r: Fields)
        ensures
            r@ == self@.push((key@, value@)),
    {
        let mut fields = self.fields;
        fields.push((key.to_owned(), value));
        let r = Fields { fields };
        assert(r@ =~= self@.push((key@, value@)));
        r
    }

    /// The object that has these fields.
    pub fn object(self) -> (r: Json)
        ensures
            r@ == JsonView::Object(self@),
    {
        let r = Json::Object(self.fields);
        assert(r@->Object_0 =~= self@);
        r
    }
}

/// What stands under `key` among the fields; the last one where there are several.
pub open spec fn lookup(fields: Seq<(Seq<char>, JsonView)>, key: Seq<char>) -> Option<JsonView>
    decreases fields.len(),
{
    if fields.len() == 0 {
        None
    } else if fields.last().0 == key {
        Some(fields.last().1)
    } else {
        lookup(fields.drop_last(), key)
    }
}

/// What stands under `key` in the object.
pub open spec fn field(value: JsonView, key: Seq<char>) -> Option<JsonView> {
    match value {
        JsonView::Object(fields) => lookup(fields, key),
        _ => None,
    }
}

/// One more field stands under its own key, and leaves what stands under the others.
pub broadcast proof fn lemma_lookup_push(
    fields: Seq<(Seq<char>, JsonView)>,
    added: (Seq<char>, JsonView),
    key: Seq<char>,
)
    ensures
        #[trigger] lookup(fields.push(added), key) == if added.0 == key {
            Some(added.1)
        } else {
            lookup(fields, key)
        },
{
    assert(fields.push(added).drop_last() == fields);
}

/// A value stands for what it holds: a truth value, a number, a text, the items of an array and
/// the fields of an object, all in their places.
pub proof fn law_value(json: Json)
    ensures
        json matches Json::Bool(b) ==> json@ == JsonView::Bool(b),
        json matches Json::Int(n) ==> json@ == JsonView::Int(n as int),
        json matches Json::Decimal { mantissa, scale } ==> json@ == (JsonView::Decimal {
            mantissa: mantissa as int,
            scale: scale as nat,
        }),
        json matches Json::Str(s) ==> json@ == JsonView::Str(s@),
        json matches Json::Array(items) ==> (json@ matches JsonView::Array(views) && views.len()
            == items@.len() && forall|i: int|
            0 <= i < items@.len() ==> #[trigger] views[i] == items@[i]@),
        json matches Json::Object(fields) ==> (json@ matches JsonView::Object(views) && views.len()
            == fields@.len() && forall|i: int|
            0 <= i < fields@.len() ==> #[trigger] views[i] == (fields@[i].0@, fields@[i].1@)),
{
}

/// Lists are viewed item by item.
pub proof fn law_views(items: Seq<Json>, texts: Seq<String>)
    ensures
        json_views(items).len() == items.len(),
        forall|i: int| 0 <= i < items.len() ==> #[trigger] json_views(items)[i] == items[i]@,
        string_views(texts).len() == texts.len(),
        forall|i: int| 0 <= i < texts.len() ==> #[trigger] string_views(texts)[i] == texts[i]@,
        no_fields().len() == 0,
{
}

} // verus!
