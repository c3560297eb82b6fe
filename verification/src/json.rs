use vstd::prelude::*;

verus! {

/// A JSON document as plain values: the shape in which instructions arrive and events leave.
///
/// Numbers keep their textual form, so no precision is lost between the wire and this type.
#[derive(Debug)]
pub enum JsonValue {
    Null,
    Bool(bool),
    Number(String),
    Text(String),
    Array(Vec<JsonValue>),
    Object(Vec<(String, JsonValue)>),
}

/// The mathematical model of a [`JsonValue`]: strings are taken by their characters.
pub enum JsonView {
    Null,
    Bool(bool),
    Number(Seq<char>),
    Text(Seq<char>),
    Array(Seq<JsonView>),
    Object(Seq<(Seq<char>, JsonView)>),
}

pub open spec fn json_view(v: JsonValue) -> JsonView
    decreases v, 0nat,
{
    match v {
        JsonValue::Null => JsonView::Null,
        JsonValue::Bool(b) => JsonView::Bool(b),
        JsonValue::Number(n) => JsonView::Number(n@),
        JsonValue::Text(t) => JsonView::Text(t@),
        JsonValue::Array(items) => JsonView::Array(items_view(items@)),
        JsonValue::Object(fields) => JsonView::Object(fields_view(fields@)),
    }
}

pub open spec fn items_view(items: Seq<JsonValue>) -> Seq<JsonView>
    decreases items, 1nat,
{
    if items.len() == 0 {
        Seq::empty()
    } else {
        seq![json_view(items[0])] + items_view(items.drop_first())
    }
}

pub open spec fn fields_view(fields: Seq<(String, JsonValue)>) -> Seq<(Seq<char>, JsonView)>
    decreases fields, 1nat,
{
    if fields.len() == 0 {
        Seq::empty()
    } else {
        seq![(fields[0].0@, json_view(fields[0].1))] + fields_view(fields.drop_first())
    }
}

impl View for JsonValue {
    type V = JsonView;

    open spec fn view(&self) -> JsonView {
        json_view(*self)
    }
}


/// `items_view` distributes over appending one item.
pub proof fn lemma_items_view_push(items: Seq<JsonValue>, item: JsonValue)
    ensures
        items_view(items.push(item)) == items_view(items).push(json_view(item)),
    decreases items.len(),
{
    if items.len() == 0 {
        assert(items.push(item).drop_first() =~= Seq::<JsonValue>::empty());
        assert(items.push(item)[0] == item);
        assert(items_view(items.push(item)) =~= seq![json_view(item)] + items_view(Seq::<JsonValue>::empty()));
        assert(items_view(items) =~= Seq::<JsonView>::empty());
    } else {
        lemma_items_view_push(items.drop_first(), item);
        assert(items.push(item).drop_first() =~= items.drop_first().push(item));
        assert(items.push(item)[0] == items[0]);
        assert(items_view(items.push(item)) =~= seq![json_view(items[0])] + items_view(items.drop_first()).push(json_view(item)));
    }
}

/// `fields_view` distributes over appending one field.
pub proof fn lemma_fields_view_push(fields: Seq<(String, JsonValue)>, field: (String, JsonValue))
    ensures
        fields_view(fields.push(field)) == fields_view(fields).push((field.0@, json_view(field.1))),
    decreases fields.len(),
{
    if fields.len() == 0 {
        assert(fields.push(field).drop_first() =~= Seq::<(String, JsonValue)>::empty());
        assert(fields.push(field)[0] == field);
        assert(fields_view(fields.push(field)) =~= seq![(field.0@, json_view(field.1))] + fields_view(Seq::<(String, JsonValue)>::empty()));
        assert(fields_view(fields) =~= Seq::<(Seq<char>, JsonView)>::empty());
    } else {
        lemma_fields_view_push(fields.drop_first(), field);
        assert(fields.push(field).drop_first() =~= fields.drop_first().push(field));
        assert(fields.push(field)[0] == fields[0]);
        assert(fields_view(fields.push(field)) =~= seq![(fields[0].0@, json_view(fields[0].1))] + fields_view(fields.drop_first()).push((field.0@, json_view(field.1))));
    }
}

/// `items_view` keeps the length and maps each item by its view.
pub proof fn lemma_items_view_index(items: Seq<JsonValue>)
    ensures
        items_view(items).len() == items.len(),
        forall|i: int| 0 <= i < items.len() ==> #[trigger] items_view(items)[i] == json_view(items[i]),
    decreases items.len(),
{
    if items.len() > 0 {
        lemma_items_view_index(items.drop_first());
    }
}

/// `fields_view` keeps the length and maps each field by its view.
pub proof fn lemma_fields_view_index(fields: Seq<(String, JsonValue)>)
    ensures
        fields_view(fields).len() == fields.len(),
        forall|i: int| 0 <= i < fields.len() ==> #[trigger] fields_view(fields)[i] == (fields[i].0@, json_view(fields[i].1)),
    decreases fields.len(),
{
    if fields.len() > 0 {
        lemma_fields_view_index(fields.drop_first());
    }
}

impl Clone for JsonValue {
    fn clone(&self) -> (r: Self)
        ensures
            r@ == self@,
        decreases self,
    {
        match self {
            JsonValue::Null => JsonValue::Null,
            JsonValue::Bool(b) => JsonValue::Bool(*b),
            JsonValue::Number(n) => JsonValue::Number(n.clone()),
            JsonValue::Text(t) => JsonValue::Text(t.clone()),
            JsonValue::Array(items) => {
                let mut out: Vec<JsonValue> = Vec::new();
                let mut i: usize = 0;
                while i < items.len()
                    invariant
                        i <= items.len(),
                        items_view(out@) == items_view(items@.take(i as int)),
                        *self == JsonValue::Array(*items),
                    decreases items.len() - i,
                {
                    proof {
                        assert(*items == self->Array_0);
                        assert(decreases_to!(*self => self->Array_0));
                        assert(decreases_to!(*items => items@));
                        assert(decreases_to!(items@ => items@[i as int]));
                    }
                    let item = items[i].clone();
                    proof {
                        lemma_items_view_push(out@, item);
                        lemma_items_view_push(items@.take(i as int), items@[i as int]);
                        assert(items@.take(i as int).push(items@[i as int]) =~= items@.take(i + 1));
                    }
                    out.push(item);
                    i = i + 1;
                }
                assert(items@.take(items.len() as int) =~= items@);
                JsonValue::Array(out)
            },
            JsonValue::Object(fields) => {
                let mut out: Vec<(String, JsonValue)> = Vec::new();
                let mut i: usize = 0;
                while i < fields.len()
                    invariant
                        i <= fields.len(),
                        fields_view(out@) == fields_view(fields@.take(i as int)),
                        *self == JsonValue::Object(*fields),
                    decreases fields.len() - i,
                {
                    proof {
                        assert(*fields == self->Object_0);
                        assert(decreases_to!(*self => self->Object_0));
                        assert(decreases_to!(*fields => fields@));
                        assert(decreases_to!(fields@ => fields@[i as int]));
                        assert(decreases_to!(fields@[i as int] => fields@[i as int].1));
                    }
                    let field = (fields[i].0.clone(), fields[i].1.clone());
                    proof {
                        lemma_fields_view_push(out@, field);
                        lemma_fields_view_push(fields@.take(i as int), fields@[i as int]);
                        assert(fields@.take(i as int).push(fields@[i as int]) =~= fields@.take(i + 1));
                    }
                    out.push(field);
                    i = i + 1;
                }
                assert(fields@.take(fields.len() as int) =~= fields@);
                JsonValue::Object(out)
            },
        }
    }
}


/// The value stored under `key` in an object's fields: the first field with that key.
pub open spec fn lookup(fields: Seq<(Seq<char>, JsonView)>, key: Seq<char>) -> Option<JsonView>
    decreases fields.len(),
{
    if fields.len() == 0 {
        None
    } else if fields[0].0 == key {
        Some(fields[0].1)
    } else {
        lookup(fields.drop_first(), key)
    }
}

/// Whether `key` is one of `allowed`.
pub open spec fn key_allowed(key: Seq<char>, allowed: Seq<Seq<char>>) -> bool {
    exists|j: int| 0 <= j < allowed.len() && allowed[j] == key
}

/// Whether every key of an object is one of `allowed` (a schema that denies unknown fields).
pub open spec fn keys_within(fields: Seq<(Seq<char>, JsonView)>, allowed: Seq<Seq<char>>) -> bool {
    forall|i: int| 0 <= i < fields.len() ==> key_allowed(#[trigger] fields[i].0, allowed)
}

/// The first key of an object that is not among `allowed`.
pub open spec fn first_unknown_key(fields: Seq<(Seq<char>, JsonView)>, allowed: Seq<Seq<char>>) -> Option<Seq<char>>
    decreases fields.len(),
{
    if fields.len() == 0 {
        None
    } else if !key_allowed(fields[0].0, allowed) {
        Some(fields[0].0)
    } else {
        first_unknown_key(fields.drop_first(), allowed)
    }
}

/// An object has no unknown key exactly when every key is allowed.
pub proof fn lemma_first_unknown_key_none(fields: Seq<(Seq<char>, JsonView)>, allowed: Seq<Seq<char>>)
    ensures
        first_unknown_key(fields, allowed) is None <==> keys_within(fields, allowed),
    decreases fields.len(),
{
    if fields.len() > 0 {
        lemma_first_unknown_key_none(fields.drop_first(), allowed);
        if keys_within(fields.drop_first(), allowed) && key_allowed(fields[0].0, allowed) {
            assert forall|i: int| 0 <= i < fields.len() implies key_allowed(#[trigger] fields[i].0, allowed) by {
                if i > 0 {
                    assert(fields[i] == fields.drop_first()[i - 1]);
                }
            }
        }
        if keys_within(fields, allowed) {
            assert(key_allowed(fields[0].0, allowed));
            assert forall|i: int| 0 <= i < fields.drop_first().len() implies key_allowed(#[trigger] fields.drop_first()[i].0, allowed) by {
                assert(fields.drop_first()[i] == fields[i + 1]);
            }
        }
    }
}

/// The first unknown key is the one at the first index whose key is not allowed.
pub proof fn lemma_first_unknown_key_at(fields: Seq<(Seq<char>, JsonView)>, allowed: Seq<Seq<char>>, i: int)
    requires
        0 <= i < fields.len(),
        !key_allowed(fields[i].0, allowed),
        forall|j: int| 0 <= j < i ==> key_allowed(#[trigger] fields[j].0, allowed),
    ensures
        first_unknown_key(fields, allowed) == Some(fields[i].0),
    decreases i,
{
    if i > 0 {
        assert(key_allowed(fields[0].0, allowed));
        assert forall|j: int| 0 <= j < i - 1 implies key_allowed(#[trigger] fields.drop_first()[j].0, allowed) by {
            assert(fields.drop_first()[j] == fields[j + 1]);
        }
        lemma_first_unknown_key_at(fields.drop_first(), allowed, i - 1);
    }
}

/// A name between backticks.
pub open spec fn backticked(name: Seq<char>) -> Seq<char> {
    "`"@ + name + "`"@
}

/// Names between backticks, separated by `, `.
pub open spec fn listed(names: Seq<Seq<char>>) -> Seq<char>
    decreases names.len(),
{
    if names.len() == 0 {
        Seq::empty()
    } else if names.len() == 1 {
        backticked(names[0])
    } else {
        listed(names.drop_last()) + ", "@ + backticked(names.last())
    }
}

/// What a schema expects in place of an unknown key, in the words `serde` uses: no field, one
/// field, two fields joined by `or`, or `one of` a list.
pub open spec fn expected_fields(names: Seq<Seq<char>>) -> Seq<char> {
    if names.len() == 0 {
        "there are no fields"@
    } else if names.len() == 1 {
        "expected "@ + backticked(names[0])
    } else if names.len() == 2 {
        "expected "@ + backticked(names[0]) + " or "@ + backticked(names[1])
    } else {
        "expected one of "@ + listed(names)
    }
}

/// The message for a key that the schema, which allows `allowed`, does not know.
pub open spec fn unknown_field_message(key: Seq<char>, allowed: Seq<Seq<char>>) -> Seq<char> {
    "unknown field `"@ + key + "`, "@ + expected_fields(allowed)
}

fn backtick_into(out: &mut String, name: &str)
    ensures
        final(out)@ == old(out)@ + backticked(name@),
{
    proof { reveal_strlit("`"); }
    crate::text::append_text(out, "`");
    crate::text::append_text(out, name);
    crate::text::append_text(out, "`");
    assert(out@ =~= old(out)@ + backticked(name@));
}

fn expected_text(allowed: &[&str]) -> (t: String)
    ensures
        t@ == expected_fields(allowed@.map_values(|a: &str| a@)),
{
    let ghost names = allowed@.map_values(|a: &str| a@);
    proof {
        reveal_strlit("there are no fields");
        reveal_strlit("expected ");
        reveal_strlit(" or ");
        reveal_strlit("expected one of ");
        reveal_strlit(", ");
    }
    let mut out = String::new();
    if allowed.len() == 0 {
        crate::text::append_text(&mut out, "there are no fields");
        return out;
    }
    if allowed.len() == 1 {
        crate::text::append_text(&mut out, "expected ");
        backtick_into(&mut out, allowed[0]);
        return out;
    }
    if allowed.len() == 2 {
        crate::text::append_text(&mut out, "expected ");
        backtick_into(&mut out, allowed[0]);
        crate::text::append_text(&mut out, " or ");
        backtick_into(&mut out, allowed[1]);
        assert(out@ =~= expected_fields(names));
        return out;
    }
    crate::text::append_text(&mut out, "expected one of ");
    let ghost start = out@;
    let mut i: usize = 0;
    while i < allowed.len()
        invariant
            i <= allowed@.len(),
            names == allowed@.map_values(|a: &str| a@),
            out@ == start + listed(names.take(i as int)),
        decreases allowed.len() - i,
    {
        if i > 0 {
            crate::text::append_text(&mut out, ", ");
        }
        backtick_into(&mut out, allowed[i]);
        proof {
            assert(names.take(i + 1).drop_last() =~= names.take(i as int));
            assert(names.take(i + 1).last() == allowed@[i as int]@);
            if i == 0 {
                assert(names.take(1)[0] == allowed@[0]@);
            }
        }
        i = i + 1;
        assert(out@ =~= start + listed(names.take(i as int)));
    }
    assert(names.take(allowed@.len() as int) =~= names);
    out
}

/// The message for a field that is absent.
pub open spec fn missing_field_message(key: Seq<char>) -> Seq<char> {
    "missing field `"@ + key + "`"@
}

/// The message for a field that is present but of another type than `expected`.
pub open spec fn field_type_message(key: Seq<char>, expected: Seq<char>) -> Seq<char> {
    "invalid type for field `"@ + key + "`: expected "@ + expected
}

/// The message reported when field `key` of an object does not hold a string.
pub open spec fn string_field_error(fields: Seq<(Seq<char>, JsonView)>, key: Seq<char>) -> Seq<char> {
    if lookup(fields, key) is Some {
        field_type_message(key, "a string"@)
    } else {
        missing_field_message(key)
    }
}

/// The text held by a JSON string value.
pub open spec fn as_text(v: Option<JsonView>) -> Option<Seq<char>> {
    match v {
        Some(JsonView::Text(t)) => Some(t),
        _ => None,
    }
}

impl JsonValue {
    /// A JSON string holding the characters of `s`.
    pub fn string(s: &str) -> (v: JsonValue)
        ensures
            v@ == JsonView::Text(s@),
    {
        JsonValue::Text(crate::text::text(s))
    }

    /// A JSON number written as the decimal form of `n`.
    pub fn integer(n: i64) -> (v: JsonValue)
        ensures
            v@ == JsonView::Number(crate::text::int_text(n as int)),
    {
        JsonValue::Number(crate::text::decimal_text(n))
    }

    /// The field stored under `key` when `self` is an object.
    pub fn get(&self, key: &str) -> (r: Option<&JsonValue>)
        ensures
            match self@ {
                JsonView::Object(fs) => match r {
                    Some(v) => lookup(fs, key@) == Some(v@),
                    None => lookup(fs, key@) is None,
                },
                _ => r is None,
            },
    {
        match self {
            JsonValue::Object(fields) => {
                proof {
                    lemma_fields_view_index(fields@);
                    assert(fields_view(fields@).skip(0) =~= fields_view(fields@));
                }
                let mut i: usize = 0;
                while i < fields.len()
                    invariant
                        i <= fields@.len(),
                        self@ == JsonView::Object(fields_view(fields@)),
                        fields_view(fields@).len() == fields@.len(),
                        forall|j: int| 0 <= j < fields@.len() ==> #[trigger] fields_view(fields@)[j] == (fields@[j].0@, json_view(fields@[j].1)),
                        lookup(fields_view(fields@), key@) == lookup(fields_view(fields@).skip(i as int), key@),
                    decreases fields.len() - i,
                {
                    let ghost rest = fields_view(fields@).skip(i as int);
                    proof {
                        assert(rest.drop_first() =~= fields_view(fields@).skip(i + 1));
                        assert(rest[0] == fields_view(fields@)[i as int]);
                    }
                    if crate::text::same_text(fields[i].0.as_str(), key) {
                        assert(lookup(rest, key@) == Some(rest[0].1));
                        return Some(&fields[i].1);
                    }
                    i = i + 1;
                }
                assert(fields_view(fields@).skip(i as int).len() == 0);
                None
            },
            _ => None,
        }
    }

    /// The first key of an object that is not among `allowed`, if any.
    pub fn unknown_key(fields: &Vec<(String, JsonValue)>, allowed: &[&str]) -> (r: Option<usize>)
        ensures
            match r {
                Some(i) => i < fields@.len() && !key_allowed(fields@[i as int].0@, allowed@.map_values(|a: &str| a@))
                    && forall|j: int| 0 <= j < i ==> key_allowed(#[trigger] fields@[j].0@, allowed@.map_values(|a: &str| a@)),
                None => keys_within(fields_view(fields@), allowed@.map_values(|a: &str| a@)),
            },
    {
        let ghost names = allowed@.map_values(|a: &str| a@);
        proof {
            lemma_fields_view_index(fields@);
        }
        let mut i: usize = 0;
        while i < fields.len()
            invariant
                i <= fields@.len(),
                names == allowed@.map_values(|a: &str| a@),
                fields_view(fields@).len() == fields@.len(),
                forall|j: int| 0 <= j < fields@.len() ==> #[trigger] fields_view(fields@)[j] == (fields@[j].0@, json_view(fields@[j].1)),
                forall|j: int| 0 <= j < i ==> key_allowed(#[trigger] fields@[j].0@, names),
            decreases fields.len() - i,
        {
            let mut k: usize = 0;
            let mut found = false;
            while k < allowed.len()
                invariant
                    i < fields@.len(),
                    k <= allowed@.len(),
                    names == allowed@.map_values(|a: &str| a@),
                    found ==> key_allowed(fields@[i as int].0@, names),
                    !found ==> forall|m: int| 0 <= m < k ==> names[m] != fields@[i as int].0@,
                decreases allowed.len() - k,
            {
                if !found && crate::text::same_text(fields[i].0.as_str(), allowed[k]) {
                    found = true;
                    proof {
                        assert(names[k as int] == fields@[i as int].0@);
                    }
                }
                k = k + 1;
            }
            if !found {
                return Some(i);
            }
            i = i + 1;
        }
        proof {
            assert forall|j: int| 0 <= j < fields_view(fields@).len() implies key_allowed(#[trigger] fields_view(fields@)[j].0, names) by {
                assert(fields_view(fields@)[j].0 == fields@[j].0@);
            }
        }
        None
    }
}

/// `fields_view` distributes over concatenation.
pub proof fn lemma_fields_view_append(a: Seq<(String, JsonValue)>, b: Seq<(String, JsonValue)>)
    ensures
        fields_view(a + b) == fields_view(a) + fields_view(b),
{
    lemma_fields_view_index(a);
    lemma_fields_view_index(b);
    lemma_fields_view_index(a + b);
    assert forall|i: int| 0 <= i < (a + b).len() implies #[trigger] fields_view(a + b)[i] == (fields_view(a) + fields_view(b))[i] by {
        if i < a.len() {
            assert((a + b)[i] == a[i]);
        } else {
            assert((a + b)[i] == b[i - a.len()]);
        }
    }
    assert(fields_view(a + b) =~= fields_view(a) + fields_view(b));
}

/// The text of a string field of an object, or the shape error to report.
pub fn string_field(value: &JsonValue, key: &str) -> (r: Result<String, String>)
    requires
        value@ is Object,
    ensures
        match r {
            Ok(t) => as_text(lookup(value@->Object_0, key@)) == Some(t@),
            Err(m) => as_text(lookup(value@->Object_0, key@)) is None
                && m@ == string_field_error(value@->Object_0, key@),
        },
{
    proof {
        reveal_strlit("invalid type for field `");
        reveal_strlit("`: expected ");
        reveal_strlit("a string");
        reveal_strlit("`: expected a string");
        reveal_strlit("missing field `");
        reveal_strlit("`");
    }
    match value.get(key) {
        Some(JsonValue::Text(t)) => Ok(t.clone()),
        Some(_) => {
            let a = crate::text::joined("invalid type for field `", key);
            let m = crate::text::joined(a.as_str(), "`: expected a string");
            assert(m@ =~= field_type_message(key@, "a string"@));
            Err(m)
        },
        None => {
            let a = crate::text::joined("missing field `", key);
            Err(crate::text::joined(a.as_str(), "`"))
        },
    }
}

/// The shape check of an object that may hold only `allowed` keys: the first unknown key
/// is reported.
pub fn check_known_keys(value: &JsonValue, allowed: &[&str]) -> (r: Result<(), String>)
    requires
        value@ is Object,
    ensures
        r is Ok <==> keys_within(value@->Object_0, allowed@.map_values(|a: &str| a@)),
        r matches Err(m) ==> first_unknown_key(value@->Object_0, allowed@.map_values(|a: &str| a@)) matches Some(k)
            && m@ == unknown_field_message(k, allowed@.map_values(|a: &str| a@)),
{
    proof {
        reveal_strlit("unknown field `");
        reveal_strlit("`, ");
    }
    match value {
        JsonValue::Object(fields) => {
            match JsonValue::unknown_key(fields, allowed) {
                Some(i) => {
                    proof {
                        let names = allowed@.map_values(|a: &str| a@);
                        lemma_fields_view_index(fields@);
                        assert(fields_view(fields@)[i as int].0 == fields@[i as int].0@);
                        assert forall|j: int| 0 <= j < i implies key_allowed(#[trigger] fields_view(fields@)[j].0, names) by {
                            assert(fields_view(fields@)[j].0 == fields@[j].0@);
                        }
                        lemma_first_unknown_key_at(fields_view(fields@), names, i as int);
                    }
                    let a = crate::text::joined("unknown field `", fields[i].0.as_str());
                    let b = crate::text::joined(a.as_str(), "`, ");
                    let expected = expected_text(allowed);
                    Err(crate::text::joined(b.as_str(), expected.as_str()))
                },
                None => Ok(()),
            }
        },
        _ => Ok(()),
    }
}

/// A field of an object: `key` and `value`.
pub fn field(key: &str, value: JsonValue) -> (f: (String, JsonValue))
    ensures
        f.0@ == key@,
        f.1 == value,
{
    (crate::text::text(key), value)
}

/// How a character stands inside a JSON string: quotes, backslashes and control characters
/// escaped (the short forms where JSON has them, `\u00XX` otherwise), every other character as
/// it is.
pub open spec fn escape_char(c: char) -> Seq<char> {
    if c == '"' {
        seq!['\\', '"']
    } else if c == '\\' {
        seq!['\\', '\\']
    } else if c == '\n' {
        seq!['\\', 'n']
    } else if c == '\r' {
        seq!['\\', 'r']
    } else if c == '\t' {
        seq!['\\', 't']
    } else if c == '\x08' {
        seq!['\\', 'b']
    } else if c == '\x0c' {
        seq!['\\', 'f']
    } else if (c as u32) < 0x20 {
        seq!['\\', 'u', '0', '0', crate::text::hex_digit_char((c as u32 / 16) as nat),
            crate::text::hex_digit_char((c as u32 % 16) as nat)]
    } else {
        seq![c]
    }
}

/// The characters of a string as JSON writes them between its quotes.
pub open spec fn escaped(s: Seq<char>) -> Seq<char>
    decreases s.len(),
{
    if s.len() == 0 {
        Seq::empty()
    } else {
        escaped(s.drop_last()) + escape_char(s.last())
    }
}

/// A string as a JSON string literal.
pub open spec fn quoted(s: Seq<char>) -> Seq<char> {
    seq!['"'] + escaped(s) + seq!['"']
}

/// The compact JSON text of a value: no white space, fields and items in their order.
pub open spec fn json_text(v: JsonView) -> Seq<char>
    decreases v, 0nat,
{
    match v {
        JsonView::Null => "null"@,
        JsonView::Bool(b) => if b { "true"@ } else { "false"@ },
        JsonView::Number(n) => n,
        JsonView::Text(t) => quoted(t),
        JsonView::Array(items) => seq!['['] + items_text(items) + seq![']'],
        JsonView::Object(fields) => seq!['{'] + fields_text(fields) + seq!['}'],
    }
}

/// Items separated by commas.
pub open spec fn items_text(items: Seq<JsonView>) -> Seq<char>
    decreases items, 1nat,
{
    if items.len() == 0 {
        Seq::empty()
    } else if items.len() == 1 {
        json_text(items[0])
    } else {
        items_text(items.drop_last()) + seq![','] + json_text(items.last())
    }
}

/// Fields written as `"key":value`, separated by commas.
pub open spec fn fields_text(fields: Seq<(Seq<char>, JsonView)>) -> Seq<char>
    decreases fields, 1nat,
{
    if fields.len() == 0 {
        Seq::empty()
    } else if fields.len() == 1 {
        quoted(fields[0].0) + seq![':'] + json_text(fields[0].1)
    } else {
        fields_text(fields.drop_last()) + seq![','] + quoted(fields.last().0) + seq![':'] + json_text(fields.last().1)
    }
}

fn escape_into(out: &mut String, c: char)
    ensures
        final(out)@ == old(out)@ + escape_char(c),
{
    if c == '"' {
        crate::text::append_text(out, "\\\"");
        proof { reveal_strlit("\\\""); }
    } else if c == '\\' {
        crate::text::append_text(out, "\\\\");
        proof { reveal_strlit("\\\\"); }
    } else if c == '\n' {
        crate::text::append_text(out, "\\n");
        proof { reveal_strlit("\\n"); }
    } else if c == '\r' {
        crate::text::append_text(out, "\\r");
        proof { reveal_strlit("\\r"); }
    } else if c == '\t' {
        crate::text::append_text(out, "\\t");
        proof { reveal_strlit("\\t"); }
    } else if c == '\x08' {
        crate::text::append_text(out, "\\b");
        proof { reveal_strlit("\\b"); }
    } else if c == '\x0c' {
        crate::text::append_text(out, "\\f");
        proof { reveal_strlit("\\f"); }
    } else if (c as u32) < 0x20 {
        let code = c as u32;
        crate::text::append_text(out, "\\u00");
        proof { reveal_strlit("\\u00"); }
        let ghost mid = out@;
        crate::text::push_char(out, crate::text::hex_digit((code / 16) as u8));
        crate::text::push_char(out, crate::text::hex_digit((code % 16) as u8));
        assert(out@ =~= old(out)@ + escape_char(c));
    } else {
        crate::text::push_char(out, c);
        assert(out@ =~= old(out)@ + escape_char(c));
    }
}

fn quote_into(out: &mut String, s: &str)
    ensures
        final(out)@ == old(out)@ + quoted(s@),
{
    let cs = crate::text::chars_of(s);
    crate::text::push_char(out, '"');
    let mut i: usize = 0;
    while i < cs.len()
        invariant
            i <= cs@.len(),
            cs@ == s@,
            out@ == old(out)@ + seq!['"'] + escaped(cs@.take(i as int)),
        decreases cs.len() - i,
    {
        let ghost before = out@;
        escape_into(out, cs[i]);
        proof {
            assert(cs@.take(i + 1).drop_last() =~= cs@.take(i as int));
            assert(cs@.take(i + 1).last() == cs@[i as int]);
        }
        i = i + 1;
        assert(out@ =~= old(out)@ + seq!['"'] + escaped(cs@.take(i as int)));
    }
    crate::text::push_char(out, '"');
    assert(cs@.take(cs@.len() as int) =~= s@);
    assert(out@ =~= old(out)@ + quoted(s@));
}

/// Appends the compact JSON text of `v`.
pub fn write_json(out: &mut String, v: &JsonValue)
    ensures
        final(out)@ == old(out)@ + json_text(v@),
    decreases v,
{
    match v {
        JsonValue::Null => {
            proof { reveal_strlit("null"); }
            crate::text::append_text(out, "null");
        },
        JsonValue::Bool(b) => {
            proof {
                reveal_strlit("true");
                reveal_strlit("false");
            }
            if *b {
                crate::text::append_text(out, "true");
            } else {
                crate::text::append_text(out, "false");
            }
        },
        JsonValue::Number(n) => crate::text::append_text(out, n.as_str()),
        JsonValue::Text(t) => quote_into(out, t.as_str()),
        JsonValue::Array(items) => {
            proof { lemma_items_view_index(items@); }
            crate::text::push_char(out, '[');
            let ghost start = out@;
            let mut i: usize = 0;
            while i < items.len()
                invariant
                    i <= items@.len(),
                    *v == JsonValue::Array(*items),
                    items_view(items@).len() == items@.len(),
                    forall|j: int| 0 <= j < items@.len() ==> #[trigger] items_view(items@)[j] == json_view(items@[j]),
                    out@ == start + items_text(items_view(items@).take(i as int)),
                decreases items.len() - i,
            {
                proof {
                    assert(*items == v->Array_0);
                    assert(decreases_to!(*v => v->Array_0));
                    assert(decreases_to!(*items => items@));
                    assert(decreases_to!(items@ => items@[i as int]));
                }
                if i > 0 {
                    crate::text::push_char(out, ',');
                }
                write_json(out, &items[i]);
                proof {
                    let w = items_view(items@);
                    assert(w.take(i + 1).drop_last() =~= w.take(i as int));
                    assert(w.take(i + 1).last() == json_view(items@[i as int]));
                    if i == 0 {
                        assert(w.take(1)[0] == json_view(items@[0]));
                    }
                }
                i = i + 1;
                assert(out@ =~= start + items_text(items_view(items@).take(i as int)));
            }
            proof {
                assert(items_view(items@).take(items@.len() as int) =~= items_view(items@));
            }
            crate::text::push_char(out, ']');
            assert(out@ =~= old(out)@ + json_text(v@));
        },
        JsonValue::Object(fields) => {
            proof { lemma_fields_view_index(fields@); }
            crate::text::push_char(out, '{');
            let ghost start = out@;
            let mut i: usize = 0;
            while i < fields.len()
                invariant
                    i <= fields@.len(),
                    *v == JsonValue::Object(*fields),
                    fields_view(fields@).len() == fields@.len(),
                    forall|j: int| 0 <= j < fields@.len() ==> #[trigger] fields_view(fields@)[j] == (fields@[j].0@, json_view(fields@[j].1)),
                    out@ == start + fields_text(fields_view(fields@).take(i as int)),
                decreases fields.len() - i,
            {
                proof {
                    assert(*fields == v->Object_0);
                    assert(decreases_to!(*v => v->Object_0));
                    assert(decreases_to!(*fields => fields@));
                    assert(decreases_to!(fields@ => fields@[i as int]));
                    assert(decreases_to!(fields@[i as int] => fields@[i as int].1));
                }
                if i > 0 {
                    crate::text::push_char(out, ',');
                }
                quote_into(out, fields[i].0.as_str());
                crate::text::push_char(out, ':');
                write_json(out, &fields[i].1);
                proof {
                    let w = fields_view(fields@);
                    assert(w.take(i + 1).drop_last() =~= w.take(i as int));
                    assert(w.take(i + 1).last() == (fields@[i as int].0@, json_view(fields@[i as int].1)));
                    if i == 0 {
                        assert(w.take(1)[0] == w[0]);
                    }
                }
                i = i + 1;
                assert(out@ =~= start + fields_text(fields_view(fields@).take(i as int)));
            }
            proof {
                assert(fields_view(fields@).take(fields@.len() as int) =~= fields_view(fields@));
            }
            crate::text::push_char(out, '}');
            assert(out@ =~= old(out)@ + json_text(v@));
        },
    }
}

/// The compact JSON text of a value, as `serde_json` writes a value whose object keys are in
/// order.
pub fn to_json_text(v: &JsonValue) -> (t: String)
    ensures
        t@ == json_text(v@),
{
    let mut out = String::new();
    write_json(&mut out, v);
    out
}


/// The value of a hexadecimal digit of either case, as a `\u` escape reads it.
pub open spec fn hex_value(c: char) -> Option<nat> {
    if '0' <= c && c <= '9' {
        Some((c as u32 - 48) as nat)
    } else if 'a' <= c && c <= 'f' {
        Some((c as u32 - 87) as nat)
    } else if 'A' <= c && c <= 'F' {
        Some((c as u32 - 55) as nat)
    } else {
        None
    }
}

/// The character that a two-character escape `\e` stands for in a JSON string (RFC 8259).
pub open spec fn short_escape(e: char) -> Option<char> {
    if e == '"' {
        Some('"')
    } else if e == '\\' {
        Some('\\')
    } else if e == '/' {
        Some('/')
    } else if e == 'b' {
        Some('\x08')
    } else if e == 'f' {
        Some('\x0c')
    } else if e == 'n' {
        Some('\n')
    } else if e == 'r' {
        Some('\r')
    } else if e == 't' {
        Some('\t')
    } else {
        None
    }
}

/// The code point that four hexadecimal digits write, when all four are digits.
pub open spec fn hex4(a: char, b: char, c: char, d: char) -> Option<nat> {
    match (hex_value(a), hex_value(b), hex_value(c), hex_value(d)) {
        (Some(w), Some(x), Some(y), Some(z)) => Some(w * 4096 + x * 256 + y * 16 + z),
        _ => None,
    }
}

/// `c` in front of a read result; nothing where the read failed.
pub open spec fn read_after(c: char, rest: Option<Seq<char>>) -> Option<Seq<char>> {
    match rest {
        Some(r) => Some(seq![c] + r),
        None => None,
    }
}

/// Reads the characters between the quotes of a JSON string literal, front to back, as
/// RFC 8259 defines them: a quote, a backslash or a control character (below U+0020) may not
/// stand raw; `\"`, `\\`, `\/`, `\b`, `\f`, `\n`, `\r`, `\t` and `\uXXXX` are the escapes.
/// `None` where the text is no valid string body. A `\u` escape of a surrogate half is
/// refused here.
pub open spec fn string_body(t: Seq<char>) -> Option<Seq<char>>
    decreases t.len(),
{
    if t.len() == 0 {
        Some(Seq::empty())
    } else if t[0] == '"' || (t[0] as u32) < 0x20 {
        None
    } else if t[0] != '\\' {
        read_after(t[0], string_body(t.drop_first()))
    } else if t.len() >= 2 && short_escape(t[1]) is Some {
        read_after(short_escape(t[1])->0, string_body(t.skip(2)))
    } else if t.len() >= 6 && t[1] == 'u' && hex4(t[2], t[3], t[4], t[5]) is Some {
        let code = hex4(t[2], t[3], t[4], t[5])->0;
        if code < 0xD800 || 0xDFFF < code {
            read_after(code as char, string_body(t.skip(6)))
        } else {
            None
        }
    } else {
        None
    }
}

/// Reads a JSON string literal: a quote, a valid string body, a quote.
pub open spec fn string_literal(t: Seq<char>) -> Option<Seq<char>> {
    if t.len() >= 2 && t[0] == '"' && t.last() == '"' {
        string_body(t.subrange(1, t.len() - 1))
    } else {
        None
    }
}

/// Whether no character of `t` is a control character (below U+0020), which JSON text may not
/// hold raw inside a string.
pub open spec fn control_free(t: Seq<char>) -> bool {
    forall|i: int| 0 <= i < t.len() ==> (t[i] as u32) >= 0x20
}

proof fn lemma_hex_value_of_digit(d: nat)
    requires
        d < 16,
    ensures
        hex_value(crate::text::hex_digit_char(d)) == Some(d),
        (crate::text::hex_digit_char(d) as u32) >= 0x30,
{
}

/// `escaped` distributes over concatenation.
proof fn lemma_escaped_append(a: Seq<char>, b: Seq<char>)
    ensures
        escaped(a + b) == escaped(a) + escaped(b),
    decreases b.len(),
{
    if b.len() == 0 {
        assert(a + b =~= a);
        assert(escaped(a) + escaped(b) =~= escaped(a));
    } else {
        lemma_escaped_append(a, b.drop_last());
        assert((a + b).drop_last() =~= a + b.drop_last());
        assert((a + b).last() == b.last());
        assert(escaped(a + b) =~= escaped(a) + escaped(b));
    }
}

/// The escaped form of a string begins with the escaped form of its first character.
proof fn lemma_escaped_front(s: Seq<char>)
    requires
        s.len() > 0,
    ensures
        escaped(s) == escape_char(s[0]) + escaped(s.drop_first()),
{
    lemma_escaped_append(seq![s[0]], s.drop_first());
    assert(seq![s[0]] + s.drop_first() =~= s);
    let one = seq![s[0]];
    assert(one.drop_last() =~= Seq::<char>::empty());
    assert(one.last() == s[0]);
    assert(escaped(one.drop_last()) =~= Seq::<char>::empty());
    assert(escaped(one) =~= escape_char(s[0]));
}

/// Reading the escaped form of one character gives back that character, whatever follows.
proof fn lemma_read_escape_char(c: char, rest: Seq<char>)
    ensures
        string_body(escape_char(c) + rest) == read_after(c, string_body(rest)),
{
    let t = escape_char(c) + rest;
    if c == '"' || c == '\\' || c == '\n' || c == '\r' || c == '\t' || c == '\x08' || c == '\x0c' {
        assert(t[0] == '\\');
        assert(short_escape(t[1]) == Some(c));
        assert(t.skip(2) =~= rest);
    } else if (c as u32) < 0x20 {
        let code = c as u32;
        lemma_hex_value_of_digit((code / 16) as nat);
        lemma_hex_value_of_digit((code % 16) as nat);
        assert(t[0] == '\\');
        assert(t[1] == 'u');
        assert(short_escape(t[1]) is None);
        assert(hex_value(t[2]) == Some(0nat));
        assert(hex_value(t[3]) == Some(0nat));
        assert(hex_value(t[4]) == Some((code / 16) as nat));
        assert(hex_value(t[5]) == Some((code % 16) as nat));
        assert(hex4(t[2], t[3], t[4], t[5]) == Some(code as nat));
        assert((code as nat) as char == c);
        assert(t.skip(6) =~= rest);
    } else {
        assert(t[0] == c);
        assert(t.drop_first() =~= rest);
    }
}

/// What the JSON writer puts between the quotes of a string reads back as that string: every
/// quote, backslash and control character is escaped, and each escape stands for the
/// character it replaced.
pub proof fn law_escaped_reads_back(s: Seq<char>)
    ensures
        string_body(escaped(s)) == Some(s),
    decreases s.len(),
{
    if s.len() == 0 {
        assert(escaped(s) =~= Seq::<char>::empty());
    } else {
        lemma_escaped_front(s);
        law_escaped_reads_back(s.drop_first());
        lemma_read_escape_char(s[0], escaped(s.drop_first()));
        assert(seq![s[0]] + s.drop_first() =~= s);
    }
}

/// The JSON text of a string value, and of an object's key, is a string literal that reads
/// back as the same string.
pub proof fn law_json_string_reads_back(s: Seq<char>)
    ensures
        string_literal(json_text(JsonView::Text(s))) == Some(s),
        string_literal(quoted(s)) == Some(s),
{
    law_escaped_reads_back(s);
    let t = json_text(JsonView::Text(s));
    assert(t == quoted(s));
    assert(t.subrange(1, t.len() - 1) =~= escaped(s));
}

/// The escaped form of a character holds no control character.
proof fn lemma_escape_char_control_free(c: char)
    ensures
        control_free(escape_char(c)),
{
    if (c as u32) < 0x20 && !(c == '\n' || c == '\r' || c == '\t' || c == '\x08' || c == '\x0c') {
        lemma_hex_value_of_digit((c as u32 / 16) as nat);
        lemma_hex_value_of_digit((c as u32 % 16) as nat);
    }
}

/// What the JSON writer puts between the quotes of a string holds no raw control character.
pub proof fn law_escaped_control_free(s: Seq<char>)
    ensures
        control_free(escaped(s)),
    decreases s.len(),
{
    if s.len() > 0 {
        law_escaped_control_free(s.drop_last());
        lemma_escape_char_control_free(s.last());
        let a = escaped(s.drop_last());
        let b = escape_char(s.last());
        assert forall|i: int| 0 <= i < (a + b).len() implies ((a + b)[i] as u32) >= 0x20 by {
            if i < a.len() {
                assert((a + b)[i] == a[i]);
            } else {
                assert((a + b)[i] == b[i - a.len()]);
            }
        }
    }
}


/// Whether every number in a value is written without control characters (a number keeps the
/// text it came with).
pub open spec fn numbers_control_free(v: JsonView) -> bool
    decreases v, 0nat,
{
    match v {
        JsonView::Number(n) => control_free(n),
        JsonView::Array(items) => items_numbers_control_free(items),
        JsonView::Object(fields) => fields_numbers_control_free(fields),
        _ => true,
    }
}

/// Whether every number in the items is written without control characters.
pub open spec fn items_numbers_control_free(items: Seq<JsonView>) -> bool
    decreases items, 1nat,
{
    if items.len() == 0 {
        true
    } else {
        items_numbers_control_free(items.drop_last()) && numbers_control_free(items.last())
    }
}

/// Whether every number in the fields' values is written without control characters.
pub open spec fn fields_numbers_control_free(fields: Seq<(Seq<char>, JsonView)>) -> bool
    decreases fields, 1nat,
{
    if fields.len() == 0 {
        true
    } else {
        fields_numbers_control_free(fields.drop_last()) && numbers_control_free(fields.last().1)
    }
}

proof fn lemma_control_free_concat(a: Seq<char>, b: Seq<char>)
    requires
        control_free(a),
        control_free(b),
    ensures
        control_free(a + b),
{
    assert forall|i: int| 0 <= i < (a + b).len() implies ((a + b)[i] as u32) >= 0x20 by {
        if i < a.len() {
            assert((a + b)[i] == a[i]);
        } else {
            assert((a + b)[i] == b[i - a.len()]);
        }
    }
}

proof fn lemma_punctuation_control_free(c: char)
    requires
        (c as u32) >= 0x20,
    ensures
        control_free(seq![c]),
{
    assert(seq![c][0] == c);
}

proof fn lemma_quoted_control_free(s: Seq<char>)
    ensures
        control_free(quoted(s)),
{
    law_escaped_control_free(s);
    lemma_punctuation_control_free('"');
    lemma_control_free_concat(seq!['"'], escaped(s));
    lemma_control_free_concat(seq!['"'] + escaped(s), seq!['"']);
}

proof fn lemma_items_text_control_free(items: Seq<JsonView>)
    requires
        items_numbers_control_free(items),
    ensures
        control_free(items_text(items)),
    decreases items, 1nat,
{
    if items.len() == 1 {
        law_json_text_control_free(items[0]);
        assert(items.last() == items[0]);
    } else if items.len() > 1 {
        lemma_items_text_control_free(items.drop_last());
        law_json_text_control_free(items.last());
        lemma_punctuation_control_free(',');
        lemma_control_free_concat(items_text(items.drop_last()), seq![',']);
        lemma_control_free_concat(items_text(items.drop_last()) + seq![','], json_text(items.last()));
    }
}

proof fn lemma_fields_text_control_free(fields: Seq<(Seq<char>, JsonView)>)
    requires
        fields_numbers_control_free(fields),
    ensures
        control_free(fields_text(fields)),
    decreases fields, 1nat,
{
    if fields.len() >= 1 {
        let f = fields.last();
        law_json_text_control_free(f.1);
        lemma_quoted_control_free(f.0);
        lemma_punctuation_control_free(':');
        lemma_punctuation_control_free(',');
        lemma_control_free_concat(quoted(f.0), seq![':']);
        lemma_control_free_concat(quoted(f.0) + seq![':'], json_text(f.1));
        if fields.len() == 1 {
            assert(fields[0] == f);
        } else {
            lemma_fields_text_control_free(fields.drop_last());
            let head = fields_text(fields.drop_last());
            lemma_control_free_concat(head, seq![',']);
            lemma_control_free_concat(head + seq![','], quoted(f.0));
            lemma_control_free_concat(head + seq![','] + quoted(f.0), seq![':']);
            lemma_control_free_concat(head + seq![','] + quoted(f.0) + seq![':'], json_text(f.1));
        }
    }
}

/// The compact JSON text of a value holds no raw control character, so a JSON reader can take
/// it back: every string and key is escaped; only a number's own text is written as it came.
pub proof fn law_json_text_control_free(v: JsonView)
    requires
        numbers_control_free(v),
    ensures
        control_free(json_text(v)),
    decreases v, 0nat,
{
    match v {
        JsonView::Null => {
            reveal_strlit("null");
        },
        JsonView::Bool(b) => {
            reveal_strlit("true");
            reveal_strlit("false");
        },
        JsonView::Number(n) => {},
        JsonView::Text(t) => {
            lemma_quoted_control_free(t);
        },
        JsonView::Array(items) => {
            lemma_items_text_control_free(items);
            lemma_punctuation_control_free('[');
            lemma_punctuation_control_free(']');
            lemma_control_free_concat(seq!['['], items_text(items));
            lemma_control_free_concat(seq!['['] + items_text(items), seq![']']);
        },
        JsonView::Object(fields) => {
            lemma_fields_text_control_free(fields);
            lemma_punctuation_control_free('{');
            lemma_punctuation_control_free('}');
            lemma_control_free_concat(seq!['{'], fields_text(fields));
            lemma_control_free_concat(seq!['{'] + fields_text(fields), seq!['}']);
        },
    }
}


/// Whether a character stands in a JSON string as it is: no quote, no backslash, no control
/// character.
pub open spec fn plain_in_string(c: char) -> bool {
    c != '"' && c != '\\' && (c as u32) >= 0x20
}

/// The writer leaves a string of plain characters as it is: it escapes nothing that JSON lets
/// stand raw, `/` and every character beyond ASCII included.
pub proof fn law_plain_text_written_as_is(s: Seq<char>)
    requires
        forall|i: int| 0 <= i < s.len() ==> plain_in_string(#[trigger] s[i]),
    ensures
        escaped(s) == s,
    decreases s.len(),
{
    if s.len() > 0 {
        assert(plain_in_string(s[s.len() - 1]));
        assert forall|i: int| 0 <= i < s.drop_last().len() implies plain_in_string(#[trigger] s.drop_last()[i]) by {
            assert(s.drop_last()[i] == s[i]);
        }
        law_plain_text_written_as_is(s.drop_last());
        assert(s.drop_last() + seq![s.last()] =~= s);
    }
}

/// Where JSON has a two-character escape `\e` for a character, the writer uses it (`/` aside,
/// which needs none).
pub proof fn law_short_escapes_used(c: char, e: char)
    requires
        short_escape(e) == Some(c),
        e != '/',
    ensures
        escape_char(c) == seq!['\\', e],
{
}

} // verus!
