//! From a JSON document to the project model.
//!
//! A member that is absent or `null` counts as missing.  A member is found
//! under its name or, where it is missing there, under its name with two
//! leading underscores, as the editor writes the members that it computes.
//! A required member that is missing, or any member of the wrong type, makes
//! the whole document unfit.

use crate::json::{json_document, parse_json, Json, JsonView};
use crate::model::{
    Definitions, DefinitionsView, EntityDef, EntityDefView, EntityInstance, EntityInstanceTile,
    EntityInstanceTileView, EntityInstanceView, FieldInstance, FieldInstanceView,
    IntGridValueDefinition, IntGridValueDefinitionView, LayerDef, LayerDefView, LayerInstance,
    LayerInstanceView, Level, LevelView, Project, ProjectView, RenderMode, TileInstance,
    TileInstanceView, TilesetDef, TilesetDefView, Type,
};
use vstd::prelude::*;

verus! {

/// The first of `members` from position `from` on that has the key `key`.
pub open spec fn find(members: Seq<(Seq<char>, JsonView)>, key: Seq<char>, from: int) -> Option<
    JsonView,
>
    decreases members.len() - from,
{
    if from < 0 || from >= members.len() {
        None
    } else if members[from].0 == key {
        Some(members[from].1)
    } else {
        find(members, key, from + 1)
    }
}

/// The member of an object with exactly the key `key`.
pub open spec fn member(json: JsonView, key: Seq<char>) -> Option<JsonView> {
    match json {
        JsonView::Object(members) => find(members, key, 0),
        _ => None,
    }
}

/// A value that is there: `null` counts as missing.
pub open spec fn some_value(found: Option<JsonView>) -> Option<JsonView> {
    match found {
        Some(JsonView::Null) => None,
        _ => found,
    }
}

/// The member of an object named `name`: the value under that key or, where
/// that is missing, the value under the key with two leading underscores.
pub open spec fn present(json: JsonView, name: Seq<char>) -> Option<JsonView> {
    match some_value(member(json, name)) {
        Some(value) => Some(value),
        None => some_value(member(json, "__"@ + name)),
    }
}

pub open spec fn as_int(json: JsonView) -> Option<i64> {
    match json {
        JsonView::Number(Some(integer), _) => Some(integer),
        _ => None,
    }
}

pub open spec fn as_double(json: JsonView) -> Option<u64> {
    match json {
        JsonView::Number(_, Some(bits)) => Some(bits),
        _ => None,
    }
}

pub open spec fn as_text(json: JsonView) -> Option<Seq<char>> {
    match json {
        JsonView::Text(text) => Some(text),
        _ => None,
    }
}

pub open spec fn as_bool(json: JsonView) -> Option<bool> {
    match json {
        JsonView::Bool(b) => Some(b),
        _ => None,
    }
}

pub open spec fn as_items(json: JsonView) -> Option<Seq<JsonView>> {
    match json {
        JsonView::Array(items) => Some(items),
        _ => None,
    }
}

/// The integers of an array of integers.
pub open spec fn as_ints(json: JsonView) -> Option<Seq<i64>> {
    match json {
        JsonView::Array(items) => if forall|i: int|
            0 <= i < items.len() ==> (#[trigger] as_int(items[i])) is Some {
            Some(Seq::new(items.len(), |i: int| as_int(items[i]).unwrap()))
        } else {
            None
        },
        _ => None,
    }
}

/// The doubles of an array of numbers, each as its bits.
pub open spec fn as_doubles(json: JsonView) -> Option<Seq<u64>> {
    match json {
        JsonView::Array(items) => if forall|i: int|
            0 <= i < items.len() ==> (#[trigger] as_double(items[i])) is Some {
            Some(Seq::new(items.len(), |i: int| as_double(items[i]).unwrap()))
        } else {
            None
        },
        _ => None,
    }
}

/// A value as it stands, `null` as nothing.
pub open spec fn as_raw(json: JsonView) -> Option<JsonView> {
    match json {
        JsonView::Null => None,
        _ => Some(json),
    }
}

/// The values of an array as they stand.
pub open spec fn as_raws(json: JsonView) -> Option<Seq<Option<JsonView>>> {
    match json {
        JsonView::Array(items) => Some(Seq::new(items.len(), |i: int| as_raw(items[i]))),
        _ => None,
    }
}

/// The views of the items of an array.
pub open spec fn item_views(items: Seq<Json>) -> Seq<JsonView> {
    Seq::new(items.len(), |i: int| items[i]@)
}

/// The views of the members of an object.
pub open spec fn member_views(members: Seq<(String, Json)>) -> Seq<(Seq<char>, JsonView)> {
    Seq::new(members.len(), |i: int| (members[i].0@, members[i].1@))
}

/// The deep view of a list of integers is the list.
proof fn lemma_plain_deep_view<T>(list: Seq<T>, deep: Seq<T>)
    requires
        deep.len() == list.len(),
        forall|i: int| 0 <= i < list.len() ==> deep[i] == list[i],
    ensures
        deep == list,
{
    assert(deep =~= list);
}

proof fn lemma_array_view(items: Vec<Json>)
    ensures
        Json::Array(items)@ == JsonView::Array(item_views(items@)),
{
    assert(Json::Array(items)@->Array_0 =~= item_views(items@));
}

proof fn lemma_object_view(members: Vec<(String, Json)>)
    ensures
        Json::Object(members)@ == JsonView::Object(member_views(members@)),
{
    assert(Json::Object(members)@->Object_0 =~= member_views(members@));
}

fn search<'a>(members: &'a Vec<(String, Json)>, key: &String) -> (found: Option<&'a Json>)
    ensures
        match found {
            Some(value) => find(member_views(members@), key@, 0) == Some(value@),
            None => find(member_views(members@), key@, 0) is None,
        },
{
    let ghost views = member_views(members@);
    let mut i: usize = 0;
    while i < members.len()
        invariant
            i <= members@.len(),
            views == member_views(members@),
            find(views, key@, 0) == find(views, key@, i as int),
        decreases members@.len() - i,
    {
        if members[i].0 == *key {
            return Some(&members[i].1);
        }
        i += 1;
    }
    None
}

/// Looks a member up by its name.
pub fn get<'a>(json: &'a Json, name: &str) -> (found: Option<&'a Json>)
    ensures
        match found {
            Some(value) => present(json@, name@) == Some(value@),
            None => present(json@, name@) is None,
        },
{
    let members = match json {
        Json::Object(members) => members,
        _ => {
            return None;
        },
    };
    proof {
        lemma_object_view(*members);
    }
    let plain = String::from_str(name);
    match search(members, &plain) {
        Some(Json::Null) => {},
        Some(value) => {
            return Some(value);
        },
        None => {},
    }
    let mut marked = String::from_str("__");
    marked.append(name);
    match search(members, &marked) {
        Some(Json::Null) => None,
        found => found,
    }
}

fn int_of(json: &Json) -> (r: Option<i64>)
    ensures
        r == as_int(json@),
{
    match json {
        Json::Number(Some(integer), _) => Some(*integer),
        _ => None,
    }
}

fn text_of(json: &Json) -> (r: Option<String>)
    ensures
        r.deep_view() == as_text(json@),
{
    match json {
        Json::Text(text) => Some(text.clone()),
        _ => None,
    }
}

fn bool_of(json: &Json) -> (r: Option<bool>)
    ensures
        r == as_bool(json@),
{
    match json {
        Json::Bool(b) => Some(*b),
        _ => None,
    }
}

fn items_of<'a>(json: &'a Json) -> (r: Option<&'a Vec<Json>>)
    ensures
        match r {
            Some(items) => as_items(json@) == Some(item_views(items@)),
            None => as_items(json@) is None,
        },
{
    match json {
        Json::Array(items) => {
            proof {
                lemma_array_view(*items);
            }
            Some(items)
        },
        _ => None,
    }
}

fn ints_of(json: &Json) -> (r: Option<Vec<i64>>)
    ensures
        r.deep_view() == as_ints(json@),
{
    let items = match items_of(json) {
        Some(items) => items,
        None => {
            return None;
        },
    };
    let ghost views = item_views(items@);
    let mut ints: Vec<i64> = Vec::new();
    let mut i: usize = 0;
    while i < items.len()
        invariant
            i <= items@.len(),
            views == item_views(items@),
            as_items(json@) == Some(views),
            ints@.len() == i,
            forall|k: int| 0 <= k < i ==> as_int(#[trigger] views[k]) == Some(ints@[k]),
        decreases items@.len() - i,
    {
        match int_of(&items[i]) {
            Some(integer) => {
                ints.push(integer);
            },
            None => {
                assert(as_int(views[i as int]) is None);
                return None;
            },
        }
        i += 1;
    }
    proof {
        assert forall|k: int| 0 <= k < views.len() implies (#[trigger] as_int(views[k])) is Some by {
            assert(as_int(views[k]) == Some(ints@[k]));
        }
        assert(ints.deep_view() =~= Seq::new(views.len(), |i: int| as_int(views[i]).unwrap()));
    }
    Some(ints)
}

fn doubles_of(json: &Json) -> (r: Option<Vec<u64>>)
    ensures
        r.deep_view() == as_doubles(json@),
{
    let items = match items_of(json) {
        Some(items) => items,
        None => {
            return None;
        },
    };
    let ghost views = item_views(items@);
    let mut doubles: Vec<u64> = Vec::new();
    let mut i: usize = 0;
    while i < items.len()
        invariant
            i <= items@.len(),
            views == item_views(items@),
            as_items(json@) == Some(views),
            doubles@.len() == i,
            forall|k: int| 0 <= k < i ==> as_double(#[trigger] views[k]) == Some(doubles@[k]),
        decreases items@.len() - i,
    {
        match &items[i] {
            Json::Number(_, Some(bits)) => {
                doubles.push(*bits);
            },
            _ => {
                assert(as_double(views[i as int]) is None);
                return None;
            },
        }
        i += 1;
    }
    proof {
        assert forall|k: int| 0 <= k < views.len() implies (#[trigger] as_double(views[k]))
            is Some by {
            assert(as_double(views[k]) == Some(doubles@[k]));
        }
        assert(doubles.deep_view() =~= Seq::new(
            views.len(),
            |i: int| as_double(views[i]).unwrap(),
        ));
    }
    Some(doubles)
}

fn raw_of(json: &Json) -> (r: Option<Json>)
    ensures
        r.deep_view() == as_raw(json@),
{
    match json {
        Json::Null => None,
        _ => Some(json.clone()),
    }
}

fn raws_of(json: &Json) -> (r: Option<Vec<Option<Json>>>)
    ensures
        r.deep_view() == as_raws(json@),
{
    let items = match items_of(json) {
        Some(items) => items,
        None => {
            return None;
        },
    };
    let ghost views = item_views(items@);
    let mut raws: Vec<Option<Json>> = Vec::new();
    let mut i: usize = 0;
    while i < items.len()
        invariant
            i <= items@.len(),
            views == item_views(items@),
            raws@.len() == i,
            forall|k: int| 0 <= k < i ==> (#[trigger] raws@[k]).deep_view() == as_raw(views[k]),
        decreases items@.len() - i,
    {
        raws.push(raw_of(&items[i]));
        i += 1;
    }
    assert(raws.deep_view() =~= Seq::new(views.len(), |i: int| as_raw(views[i])));
    Some(raws)
}

pub open spec fn int_at(json: JsonView, name: Seq<char>) -> Option<i64> {
    match present(json, name) {
        Some(value) => as_int(value),
        None => None,
    }
}

/// An integer that may be missing: `Some(None)` where it is.
pub open spec fn maybe_int_at(json: JsonView, name: Seq<char>) -> Option<Option<i64>> {
    match present(json, name) {
        Some(value) => match as_int(value) {
            Some(integer) => Some(Some(integer)),
            None => None,
        },
        None => Some(None),
    }
}

/// An integer that is `0` where it is missing.
pub open spec fn int_or_zero_at(json: JsonView, name: Seq<char>) -> Option<i64> {
    match present(json, name) {
        Some(value) => as_int(value),
        None => Some(0),
    }
}

pub open spec fn text_at(json: JsonView, name: Seq<char>) -> Option<Seq<char>> {
    match present(json, name) {
        Some(value) => as_text(value),
        None => None,
    }
}

/// A text that may be missing: `Some(None)` where it is.
pub open spec fn maybe_text_at(json: JsonView, name: Seq<char>) -> Option<Option<Seq<char>>> {
    match present(json, name) {
        Some(value) => match as_text(value) {
            Some(text) => Some(Some(text)),
            None => None,
        },
        None => Some(None),
    }
}

/// A text that is empty where it is missing.
pub open spec fn text_or_empty_at(json: JsonView, name: Seq<char>) -> Option<Seq<char>> {
    match present(json, name) {
        Some(value) => as_text(value),
        None => Some(Seq::empty()),
    }
}

pub open spec fn bool_at(json: JsonView, name: Seq<char>) -> Option<bool> {
    match present(json, name) {
        Some(value) => as_bool(value),
        None => None,
    }
}

pub open spec fn ints_at(json: JsonView, name: Seq<char>) -> Option<Seq<i64>> {
    match present(json, name) {
        Some(value) => as_ints(value),
        None => None,
    }
}

/// An array of integers that is empty where it is missing.
pub open spec fn ints_or_empty_at(json: JsonView, name: Seq<char>) -> Option<Seq<i64>> {
    match present(json, name) {
        Some(value) => as_ints(value),
        None => Some(Seq::empty()),
    }
}

/// An array of doubles that is empty where it is missing.
pub open spec fn doubles_or_empty_at(json: JsonView, name: Seq<char>) -> Option<Seq<u64>> {
    match present(json, name) {
        Some(value) => as_doubles(value),
        None => Some(Seq::empty()),
    }
}

/// An array of values as they stand that is empty where it is missing.
pub open spec fn raws_or_empty_at(json: JsonView, name: Seq<char>) -> Option<
    Seq<Option<JsonView>>,
> {
    match present(json, name) {
        Some(value) => as_raws(value),
        None => Some(Seq::empty()),
    }
}

pub open spec fn items_at(json: JsonView, name: Seq<char>) -> Option<Seq<JsonView>> {
    match present(json, name) {
        Some(value) => as_items(value),
        None => None,
    }
}

/// An array that is empty where it is missing.
pub open spec fn items_or_empty_at(json: JsonView, name: Seq<char>) -> Option<Seq<JsonView>> {
    match present(json, name) {
        Some(value) => as_items(value),
        None => Some(Seq::empty()),
    }
}

fn get_int(json: &Json, name: &str) -> (r: Option<i64>)
    ensures
        r == int_at(json@, name@),
{
    match get(json, name) {
        Some(value) => int_of(value),
        None => None,
    }
}

fn get_maybe_int(json: &Json, name: &str) -> (r: Option<Option<i64>>)
    ensures
        r == maybe_int_at(json@, name@),
{
    match get(json, name) {
        Some(value) => match int_of(value) {
            Some(integer) => Some(Some(integer)),
            None => None,
        },
        None => Some(None),
    }
}

fn get_int_or_zero(json: &Json, name: &str) -> (r: Option<i64>)
    ensures
        r == int_or_zero_at(json@, name@),
{
    match get(json, name) {
        Some(value) => int_of(value),
        None => Some(0),
    }
}

fn get_text(json: &Json, name: &str) -> (r: Option<String>)
    ensures
        r.deep_view() == text_at(json@, name@),
{
    match get(json, name) {
        Some(value) => text_of(value),
        None => None,
    }
}

fn get_maybe_text(json: &Json, name: &str) -> (r: Option<Option<String>>)
    ensures
        r.deep_view() == maybe_text_at(json@, name@),
{
    match get(json, name) {
        Some(value) => match text_of(value) {
            Some(text) => Some(Some(text)),
            None => None,
        },
        None => Some(None),
    }
}

fn get_text_or_empty(json: &Json, name: &str) -> (r: Option<String>)
    ensures
        r.deep_view() == text_or_empty_at(json@, name@),
{
    match get(json, name) {
        Some(value) => text_of(value),
        None => Some(String::new()),
    }
}

fn get_bool(json: &Json, name: &str) -> (r: Option<bool>)
    ensures
        r == bool_at(json@, name@),
{
    match get(json, name) {
        Some(value) => bool_of(value),
        None => None,
    }
}

fn get_ints(json: &Json, name: &str) -> (r: Option<Vec<i64>>)
    ensures
        r.deep_view() == ints_at(json@, name@),
{
    match get(json, name) {
        Some(value) => ints_of(value),
        None => None,
    }
}

fn get_ints_or_empty(json: &Json, name: &str) -> (r: Option<Vec<i64>>)
    ensures
        r.deep_view() == ints_or_empty_at(json@, name@),
{
    match get(json, name) {
        Some(value) => ints_of(value),
        None => {
            let none: Vec<i64> = Vec::new();
            assert(none.deep_view() =~= Seq::<i64>::empty());
            Some(none)
        },
    }
}

fn get_doubles_or_empty(json: &Json, name: &str) -> (r: Option<Vec<u64>>)
    ensures
        r.deep_view() == doubles_or_empty_at(json@, name@),
{
    match get(json, name) {
        Some(value) => doubles_of(value),
        None => {
            let none: Vec<u64> = Vec::new();
            assert(none.deep_view() =~= Seq::<u64>::empty());
            Some(none)
        },
    }
}

fn get_raws_or_empty(json: &Json, name: &str) -> (r: Option<Vec<Option<Json>>>)
    ensures
        r.deep_view() == raws_or_empty_at(json@, name@),
{
    match get(json, name) {
        Some(value) => raws_of(value),
        None => {
            let none: Vec<Option<Json>> = Vec::new();
            assert(none.deep_view() =~= Seq::<Option<JsonView>>::empty());
            Some(none)
        },
    }
}

/// `Some` with the items where the member is an array, `Some` with nothing
/// where it is missing and may be, `None` otherwise.
fn get_items<'a>(json: &'a Json, name: &str, may_miss: bool) -> (r: Option<Option<&'a Vec<Json>>>)
    ensures
        match r {
            Some(Some(items)) => {
                &&& items_at(json@, name@) == Some(item_views(items@))
                &&& items_or_empty_at(json@, name@) == Some(item_views(items@))
            },
            Some(None) => {
                &&& may_miss
                &&& present(json@, name@) is None
                &&& items_or_empty_at(json@, name@) == Some(Seq::<JsonView>::empty())
            },
            None => if may_miss {
                items_or_empty_at(json@, name@) is None
            } else {
                items_at(json@, name@) is None
            },
        },
{
    match get(json, name) {
        Some(value) => match items_of(value) {
            Some(items) => Some(Some(items)),
            None => None,
        },
        None => if may_miss {
            Some(None)
        } else {
            None
        },
    }
}

/// A placed tile: its position, its index in the atlas and its flip flags
/// must be there.
pub open spec fn decode_tile(json: JsonView) -> Option<TileInstanceView> {
    match (
        ints_or_empty_at(json, "d"@),
        int_at(json, "f"@),
        ints_at(json, "px"@),
        ints_or_empty_at(json, "src"@),
        int_at(json, "t"@),
    ) {
        (Some(d), Some(f), Some(px), Some(src), Some(t)) => Some(
            TileInstanceView { d, f, px, src, t },
        ),
        _ => None,
    }
}

fn tile_from(json: &Json) -> (r: Option<TileInstance>)
    ensures
        r.deep_view() == decode_tile(json@),
{
    let d = match get_ints_or_empty(json, "d") {
        Some(d) => d,
        None => {
            return None;
        },
    };
    let f = match get_int(json, "f") {
        Some(f) => f,
        None => {
            return None;
        },
    };
    let px = match get_ints(json, "px") {
        Some(px) => px,
        None => {
            return None;
        },
    };
    let src = match get_ints_or_empty(json, "src") {
        Some(src) => src,
        None => {
            return None;
        },
    };
    let t = match get_int(json, "t") {
        Some(t) => t,
        None => {
            return None;
        },
    };
    proof {
        lemma_plain_deep_view(d@, d.deep_view());
        lemma_plain_deep_view(px@, px.deep_view());
        lemma_plain_deep_view(src@, src.deep_view());
    }
    Some(TileInstance { d, f, px, src, t })
}

/// The tiles of an array, where every item is fit.
pub open spec fn decode_tiles(items: Seq<JsonView>) -> Option<Seq<TileInstanceView>> {
    if forall|i: int| 0 <= i < items.len() ==> (#[trigger] decode_tile(items[i])) is Some {
        Some(Seq::new(items.len(), |i: int| decode_tile(items[i]).unwrap()))
    } else {
        None
    }
}

fn tiles_from(items: &Vec<Json>) -> (r: Option<Vec<TileInstance>>)
    ensures
        r.deep_view() == decode_tiles(item_views(items@)),
{
    let ghost views = item_views(items@);
    let mut read: Vec<TileInstance> = Vec::new();
    let mut i: usize = 0;
    while i < items.len()
        invariant
            i <= items@.len(),
            views == item_views(items@),
            read@.len() == i,
            forall|k: int|
                0 <= k < i ==> decode_tile(#[trigger] views[k]) == Some(read@[k].deep_view()),
        decreases items@.len() - i,
    {
        match tile_from(&items[i]) {
            Some(item) => {
                read.push(item);
            },
            None => {
                assert(decode_tile(views[i as int]) is None);
                return None;
            },
        }
        i += 1;
    }
    proof {
        assert forall|k: int| 0 <= k < views.len() implies (#[trigger] decode_tile(views[k]))
            is Some by {
            assert(decode_tile(views[k]) == Some(read@[k].deep_view()));
        }
        assert(read.deep_view() =~= Seq::new(
            views.len(),
            |i: int| decode_tile(views[i]).unwrap(),
        ));
    }
    Some(read)
}


/// The type of a layer definition by its name.
pub open spec fn layer_type_of(name: Seq<char>) -> Option<Type> {
    if name == "AutoLayer"@ {
        Some(Type::AutoLayer)
    } else if name == "Entities"@ {
        Some(Type::Entities)
    } else if name == "IntGrid"@ {
        Some(Type::IntGrid)
    } else if name == "Tiles"@ {
        Some(Type::Tiles)
    } else {
        None
    }
}

pub open spec fn layer_type_at(json: JsonView, name: Seq<char>) -> Option<Type> {
    match text_at(json, name) {
        Some(text) => layer_type_of(text),
        None => None,
    }
}

fn get_layer_type(json: &Json, name: &str) -> (r: Option<Type>)
    ensures
        r == layer_type_at(json@, name@),
{
    let text = match get_text(json, name) {
        Some(text) => text,
        None => {
            return None;
        },
    };
    if text == String::from_str("AutoLayer") {
        Some(Type::AutoLayer)
    } else if text == String::from_str("Entities") {
        Some(Type::Entities)
    } else if text == String::from_str("IntGrid") {
        Some(Type::IntGrid)
    } else if text == String::from_str("Tiles") {
        Some(Type::Tiles)
    } else {
        None
    }
}

/// The way an entity is shown by its name.
pub open spec fn render_mode_of(name: Seq<char>) -> Option<RenderMode> {
    if name == "Cross"@ {
        Some(RenderMode::Cross)
    } else if name == "Ellipse"@ {
        Some(RenderMode::Ellipse)
    } else if name == "Rectangle"@ {
        Some(RenderMode::Rectangle)
    } else if name == "Tile"@ {
        Some(RenderMode::Tile)
    } else {
        None
    }
}

pub open spec fn render_mode_at(json: JsonView, name: Seq<char>) -> Option<RenderMode> {
    match text_at(json, name) {
        Some(text) => render_mode_of(text),
        None => None,
    }
}

fn get_render_mode(json: &Json, name: &str) -> (r: Option<RenderMode>)
    ensures
        r == render_mode_at(json@, name@),
{
    let text = match get_text(json, name) {
        Some(text) => text,
        None => {
            return None;
        },
    };
    if text == String::from_str("Cross") {
        Some(RenderMode::Cross)
    } else if text == String::from_str("Ellipse") {
        Some(RenderMode::Ellipse)
    } else if text == String::from_str("Rectangle") {
        Some(RenderMode::Rectangle)
    } else if text == String::from_str("Tile") {
        Some(RenderMode::Tile)
    } else {
        None
    }
}

/// The tile that shows an entity.
pub open spec fn decode_entity_tile(json: JsonView) -> Option<EntityInstanceTileView> {
    match (
        ints_or_empty_at(json, "srcRect"@),
        int_at(json, "tilesetUid"@),
    ) {
        (Some(src_rect), Some(tileset_uid)) => Some(
            EntityInstanceTileView { src_rect, tileset_uid },
        ),
        _ => None,
    }
}

fn entity_tile_from(json: &Json) -> (r: Option<EntityInstanceTile>)
    ensures
        r.deep_view() == decode_entity_tile(json@),
{
    let src_rect = match get_ints_or_empty(json, "srcRect") {
        Some(src_rect) => src_rect,
        None => {
            return None;
        },
    };
    let tileset_uid = match get_int(json, "tilesetUid") {
        Some(tileset_uid) => tileset_uid,
        None => {
            return None;
        },
    };
    let read = EntityInstanceTile { src_rect, tileset_uid };
    proof {
        lemma_plain_deep_view(src_rect@, src_rect.deep_view());
        assert(Some(read.deep_view()) == decode_entity_tile(json@));
    }
    Some(read)
}

/// A field of an entity; its value is kept as it stands.
pub open spec fn decode_field(json: JsonView) -> Option<FieldInstanceView> {
    match (
        text_at(json, "identifier"@),
        text_or_empty_at(json, "type"@),
        Some(present(json, "value"@)),
        int_at(json, "defUid"@),
        raws_or_empty_at(json, "realEditorValues"@),
    ) {
        (
            Some(identifier),
            Some(field_instance_type),
            Some(value),
            Some(def_uid),
            Some(real_editor_values),
        ) => Some(
            FieldInstanceView {
                identifier,
                field_instance_type,
                value,
                def_uid,
                real_editor_values,
            },
        ),
        _ => None,
    }
}

fn field_from(json: &Json) -> (r: Option<FieldInstance>)
    ensures
        r.deep_view() == decode_field(json@),
{
    let identifier = match get_text(json, "identifier") {
        Some(identifier) => identifier,
        None => {
            return None;
        },
    };
    let field_instance_type = match get_text_or_empty(json, "type") {
        Some(field_instance_type) => field_instance_type,
        None => {
            return None;
        },
    };
    let value = match get(json, "value") {
        Some(value) => Some(value.clone()),
        None => None,
    };
    let def_uid = match get_int(json, "defUid") {
        Some(def_uid) => def_uid,
        None => {
            return None;
        },
    };
    let real_editor_values = match get_raws_or_empty(json, "realEditorValues") {
        Some(real_editor_values) => real_editor_values,
        None => {
            return None;
        },
    };
    let read = FieldInstance {
        identifier,
        field_instance_type,
        value,
        def_uid,
        real_editor_values,
    };
    proof {
        assert(read@.real_editor_values =~= read.real_editor_values.deep_view());
        assert(Some(read.deep_view()) == decode_field(json@));
    }
    Some(read)
}

/// The fields of an array, where every item is fit.
pub open spec fn decode_fields(items: Seq<JsonView>) -> Option<Seq<FieldInstanceView>> {
    if forall|i: int| 0 <= i < items.len() ==> (#[trigger] decode_field(items[i])) is Some {
        Some(Seq::new(items.len(), |i: int| decode_field(items[i]).unwrap()))
    } else {
        None
    }
}

fn fields_from(items: &Vec<Json>) -> (r: Option<Vec<FieldInstance>>)
    ensures
        r.deep_view() == decode_fields(item_views(items@)),
{
    let ghost views = item_views(items@);
    let mut read: Vec<FieldInstance> = Vec::new();
    let mut i: usize = 0;
    while i < items.len()
        invariant
            i <= items@.len(),
            views == item_views(items@),
            read@.len() == i,
            forall|k: int|
                0 <= k < i ==> decode_field(#[trigger] views[k]) == Some(read@[k].deep_view()),
        decreases items@.len() - i,
    {
        match field_from(&items[i]) {
            Some(item) => {
                read.push(item);
            },
            None => {
                assert(decode_field(views[i as int]) is None);
                return None;
            },
        }
        i += 1;
    }
    proof {
        assert forall|k: int| 0 <= k < views.len() implies (#[trigger] decode_field(views[k]))
            is Some by {
            assert(decode_field(views[k]) == Some(read@[k].deep_view()));
        }
        assert(read.deep_view() =~= Seq::new(
            views.len(),
            |i: int| decode_field(views[i]).unwrap(),
        ));
    }
    Some(read)
}

/// An entity instance: its grid position and its definition must be there.
pub open spec fn decode_entity(json: JsonView) -> Option<EntityInstanceView> {
    match (
        ints_at(json, "grid"@),
        text_or_empty_at(json, "identifier"@),
        doubles_or_empty_at(json, "pivot"@),
        match present(json, "tile"@) {
            Some(value) => match decode_entity_tile(value) {
                Some(read) => Some(Some(read)),
                None => None,
            },
            None => Some(None),
        },
        int_at(json, "defUid"@),
        match items_or_empty_at(json, "fieldInstances"@) {
            Some(items) => decode_fields(items),
            None => None,
        },
        int_or_zero_at(json, "height"@),
        ints_or_empty_at(json, "px"@),
        int_or_zero_at(json, "width"@),
    ) {
        (
            Some(grid),
            Some(identifier),
            Some(pivot),
            Some(tile),
            Some(def_uid),
            Some(field_instances),
            Some(height),
            Some(px),
            Some(width),
        ) => Some(
            EntityInstanceView {
                grid,
                identifier,
                pivot,
                tile,
                def_uid,
                field_instances,
                height,
                px,
                width,
            },
        ),
        _ => None,
    }
}

fn entity_from(json: &Json) -> (r: Option<EntityInstance>)
    ensures
        r.deep_view() == decode_entity(json@),
{
    let grid = match get_ints(json, "grid") {
        Some(grid) => grid,
        None => {
            return None;
        },
    };
    let identifier = match get_text_or_empty(json, "identifier") {
        Some(identifier) => identifier,
        None => {
            return None;
        },
    };
    let pivot = match get_doubles_or_empty(json, "pivot") {
        Some(pivot) => pivot,
        None => {
            return None;
        },
    };
    let tile = match get(json, "tile") {
        Some(value) => match entity_tile_from(value) {
            Some(read) => Some(read),
            None => {
                return None;
            },
        },
        None => None,
    };
    let def_uid = match get_int(json, "defUid") {
        Some(def_uid) => def_uid,
        None => {
            return None;
        },
    };
    let field_instances = match get_items(json, "fieldInstances", true) {
        Some(Some(items)) => match fields_from(items) {
            Some(field_instances) => field_instances,
            None => {
                return None;
            },
        },
        Some(None) => {
            let none: Vec<_> = Vec::new();
            proof {
                assert(none.deep_view() =~= decode_fields(Seq::<JsonView>::empty()).unwrap());
            }
            none
        },
        None => {
            return None;
        },
    };
    let height = match get_int_or_zero(json, "height") {
        Some(height) => height,
        None => {
            return None;
        },
    };
    let px = match get_ints_or_empty(json, "px") {
        Some(px) => px,
        None => {
            return None;
        },
    };
    let width = match get_int_or_zero(json, "width") {
        Some(width) => width,
        None => {
            return None;
        },
    };
    let read = EntityInstance {
        grid,
        identifier,
        pivot,
        tile,
        def_uid,
        field_instances,
        height,
        px,
        width,
    };
    proof {
        lemma_plain_deep_view(grid@, grid.deep_view());
        lemma_plain_deep_view(pivot@, pivot.deep_view());
        lemma_plain_deep_view(px@, px.deep_view());
        assert(read@.field_instances =~= read.field_instances.deep_view());
        assert(Some(read.deep_view()) == decode_entity(json@));
    }
    Some(read)
}

/// The entity instances of an array, where every item is fit.
pub open spec fn decode_entities(items: Seq<JsonView>) -> Option<Seq<EntityInstanceView>> {
    if forall|i: int| 0 <= i < items.len() ==> (#[trigger] decode_entity(items[i])) is Some {
        Some(Seq::new(items.len(), |i: int| decode_entity(items[i]).unwrap()))
    } else {
        None
    }
}

fn entities_from(items: &Vec<Json>) -> (r: Option<Vec<EntityInstance>>)
    ensures
        r.deep_view() == decode_entities(item_views(items@)),
{
    let ghost views = item_views(items@);
    let mut read: Vec<EntityInstance> = Vec::new();
    let mut i: usize = 0;
    while i < items.len()
        invariant
            i <= items@.len(),
            views == item_views(items@),
            read@.len() == i,
            forall|k: int|
                0 <= k < i ==> decode_entity(#[trigger] views[k]) == Some(read@[k].deep_view()),
        decreases items@.len() - i,
    {
        match entity_from(&items[i]) {
            Some(item) => {
                read.push(item);
            },
            None => {
                assert(decode_entity(views[i as int]) is None);
                return None;
            },
        }
        i += 1;
    }
    proof {
        assert forall|k: int| 0 <= k < views.len() implies (#[trigger] decode_entity(views[k]))
            is Some by {
            assert(decode_entity(views[k]) == Some(read@[k].deep_view()));
        }
        assert(read.deep_view() =~= Seq::new(
            views.len(),
            |i: int| decode_entity(views[i]).unwrap(),
        ));
    }
    Some(read)
}

/// A layer instance.
pub open spec fn decode_layer_instance(json: JsonView) -> Option<LayerInstanceView> {
    match (
        text_or_empty_at(json, "identifier"@),
        text_at(json, "type"@),
        int_at(json, "cWid"@),
        int_at(json, "cHei"@),
        int_at(json, "gridSize"@),
        int_at(json, "layerDefUid"@),
        maybe_int_at(json, "tilesetDefUid"@),
        match items_at(json, "gridTiles"@) {
            Some(items) => decode_tiles(items),
            None => None,
        },
        match items_at(json, "autoLayerTiles"@) {
            Some(items) => decode_tiles(items),
            None => None,
        },
        ints_at(json, "intGridCsv"@),
        match items_at(json, "entityInstances"@) {
            Some(items) => decode_entities(items),
            None => None,
        },
    ) {
        (
            Some(identifier),
            Some(layer_instance_type),
            Some(c_wid),
            Some(c_hei),
            Some(grid_size),
            Some(layer_def_uid),
            Some(tileset_def_uid),
            Some(grid_tiles),
            Some(auto_layer_tiles),
            Some(int_grid_csv),
            Some(entity_instances),
        ) => Some(
            LayerInstanceView {
                identifier,
                layer_instance_type,
                c_wid,
                c_hei,
                grid_size,
                layer_def_uid,
                tileset_def_uid,
                grid_tiles,
                auto_layer_tiles,
                int_grid_csv,
                entity_instances,
            },
        ),
        _ => None,
    }
}

fn layer_instance_from(json: &Json) -> (r: Option<LayerInstance>)
    ensures
        r.deep_view() == decode_layer_instance(json@),
{
    let identifier = match get_text_or_empty(json, "identifier") {
        Some(identifier) => identifier,
        None => {
            return None;
        },
    };
    let layer_instance_type = match get_text(json, "type") {
        Some(layer_instance_type) => layer_instance_type,
        None => {
            return None;
        },
    };
    let c_wid = match get_int(json, "cWid") {
        Some(c_wid) => c_wid,
        None => {
            return None;
        },
    };
    let c_hei = match get_int(json, "cHei") {
        Some(c_hei) => c_hei,
        None => {
            return None;
        },
    };
    let grid_size = match get_int(json, "gridSize") {
        Some(grid_size) => grid_size,
        None => {
            return None;
        },
    };
    let layer_def_uid = match get_int(json, "layerDefUid") {
        Some(layer_def_uid) => layer_def_uid,
        None => {
            return None;
        },
    };
    let tileset_def_uid = match get_maybe_int(json, "tilesetDefUid") {
        Some(tileset_def_uid) => tileset_def_uid,
        None => {
            return None;
        },
    };
    let grid_tiles = match get_items(json, "gridTiles", false) {
        Some(Some(items)) => match tiles_from(items) {
            Some(grid_tiles) => grid_tiles,
            None => {
                return None;
            },
        },
        _ => {
            return None;
        },
    };
    let auto_layer_tiles = match get_items(json, "autoLayerTiles", false) {
        Some(Some(items)) => match tiles_from(items) {
            Some(auto_layer_tiles) => auto_layer_tiles,
            None => {
                return None;
            },
        },
        _ => {
            return None;
        },
    };
    let int_grid_csv = match get_ints(json, "intGridCsv") {
        Some(int_grid_csv) => int_grid_csv,
        None => {
            return None;
        },
    };
    let entity_instances = match get_items(json, "entityInstances", false) {
        Some(Some(items)) => match entities_from(items) {
            Some(entity_instances) => entity_instances,
            None => {
                return None;
            },
        },
        _ => {
            return None;
        },
    };
    let read = LayerInstance {
        identifier,
        layer_instance_type,
        c_wid,
        c_hei,
        grid_size,
        layer_def_uid,
        tileset_def_uid,
        grid_tiles,
        auto_layer_tiles,
        int_grid_csv,
        entity_instances,
    };
    proof {
        lemma_plain_deep_view(int_grid_csv@, int_grid_csv.deep_view());
        assert(Some(read.deep_view()) == decode_layer_instance(json@));
    }
    Some(read)
}

/// The layer instances of an array, where every item is fit.
pub open spec fn decode_layer_instances(items: Seq<JsonView>) -> Option<Seq<LayerInstanceView>> {
    if forall|i: int| 0 <= i < items.len() ==> (#[trigger] decode_layer_instance(items[i])) is Some {
        Some(Seq::new(items.len(), |i: int| decode_layer_instance(items[i]).unwrap()))
    } else {
        None
    }
}

fn layer_instances_from(items: &Vec<Json>) -> (r: Option<Vec<LayerInstance>>)
    ensures
        r.deep_view() == decode_layer_instances(item_views(items@)),
{
    let ghost views = item_views(items@);
    let mut read: Vec<LayerInstance> = Vec::new();
    let mut i: usize = 0;
    while i < items.len()
        invariant
            i <= items@.len(),
            views == item_views(items@),
            read@.len() == i,
            forall|k: int|
                0 <= k < i ==> decode_layer_instance(#[trigger] views[k]) == Some(read@[k].deep_view()),
        decreases items@.len() - i,
    {
        match layer_instance_from(&items[i]) {
            Some(item) => {
                read.push(item);
            },
            None => {
                assert(decode_layer_instance(views[i as int]) is None);
                return None;
            },
        }
        i += 1;
    }
    proof {
        assert forall|k: int| 0 <= k < views.len() implies (#[trigger] decode_layer_instance(views[k]))
            is Some by {
            assert(decode_layer_instance(views[k]) == Some(read@[k].deep_view()));
        }
        assert(read.deep_view() =~= Seq::new(
            views.len(),
            |i: int| decode_layer_instance(views[i]).unwrap(),
        ));
    }
    Some(read)
}

/// A level; its layer instances are missing in the stub of a level that is stored in a
/// separate file.
pub open spec fn decode_level(json: JsonView) -> Option<LevelView> {
    match (
        int_at(json, "uid"@),
        text_at(json, "identifier"@),
        int_at(json, "worldX"@),
        int_at(json, "worldY"@),
        text_at(json, "bgColor"@),
        maybe_text_at(json, "externalRelPath"@),
        match present(json, "layerInstances"@) {
            Some(value) => match as_items(value) {
                Some(items) => match decode_layer_instances(items) {
                    Some(read) => Some(Some(read)),
                    None => None,
                },
                None => None,
            },
            None => Some(None),
        },
    ) {
        (
            Some(uid),
            Some(identifier),
            Some(world_x),
            Some(world_y),
            Some(bg_color),
            Some(external_rel_path),
            Some(layer_instances),
        ) => Some(
            LevelView {
                uid,
                identifier,
                world_x,
                world_y,
                bg_color,
                external_rel_path,
                layer_instances,
            },
        ),
        _ => None,
    }
}

/// Reads a level from a JSON document; `None` where the document is unfit.
pub fn level_from(json: &Json) -> (r: Option<Level>)
    ensures
        r.deep_view() == decode_level(json@),
{
    let uid = match get_int(json, "uid") {
        Some(uid) => uid,
        None => {
            return None;
        },
    };
    let identifier = match get_text(json, "identifier") {
        Some(identifier) => identifier,
        None => {
            return None;
        },
    };
    let world_x = match get_int(json, "worldX") {
        Some(world_x) => world_x,
        None => {
            return None;
        },
    };
    let world_y = match get_int(json, "worldY") {
        Some(world_y) => world_y,
        None => {
            return None;
        },
    };
    let bg_color = match get_text(json, "bgColor") {
        Some(bg_color) => bg_color,
        None => {
            return None;
        },
    };
    let external_rel_path = match get_maybe_text(json, "externalRelPath") {
        Some(external_rel_path) => external_rel_path,
        None => {
            return None;
        },
    };
    let layer_instances = match get(json, "layerInstances") {
        Some(value) => match items_of(value) {
            Some(items) => match layer_instances_from(items) {
                Some(read) => Some(read),
                None => {
                    return None;
                },
            },
            None => {
                return None;
            },
        },
        None => None,
    };
    let read = Level {
        uid,
        identifier,
        world_x,
        world_y,
        bg_color,
        external_rel_path,
        layer_instances,
    };
    proof {
        assert(Some(read.deep_view()) == decode_level(json@));
    }
    Some(read)
}

/// The levels of an array, where every item is fit.
pub open spec fn decode_levels(items: Seq<JsonView>) -> Option<Seq<LevelView>> {
    if forall|i: int| 0 <= i < items.len() ==> (#[trigger] decode_level(items[i])) is Some {
        Some(Seq::new(items.len(), |i: int| decode_level(items[i]).unwrap()))
    } else {
        None
    }
}

fn levels_from(items: &Vec<Json>) -> (r: Option<Vec<Level>>)
    ensures
        r.deep_view() == decode_levels(item_views(items@)),
{
    let ghost views = item_views(items@);
    let mut read: Vec<Level> = Vec::new();
    let mut i: usize = 0;
    while i < items.len()
        invariant
            i <= items@.len(),
            views == item_views(items@),
            read@.len() == i,
            forall|k: int|
                0 <= k < i ==> decode_level(#[trigger] views[k]) == Some(read@[k].deep_view()),
        decreases items@.len() - i,
    {
        match level_from(&items[i]) {
            Some(item) => {
                read.push(item);
            },
            None => {
                assert(decode_level(views[i as int]) is None);
                return None;
            },
        }
        i += 1;
    }
    proof {
        assert forall|k: int| 0 <= k < views.len() implies (#[trigger] decode_level(views[k]))
            is Some by {
            assert(decode_level(views[k]) == Some(read@[k].deep_view()));
        }
        assert(read.deep_view() =~= Seq::new(
            views.len(),
            |i: int| decode_level(views[i]).unwrap(),
        ));
    }
    Some(read)
}

/// A tileset.
pub open spec fn decode_tileset(json: JsonView) -> Option<TilesetDefView> {
    match (
        int_at(json, "uid"@),
        text_at(json, "identifier"@),
        text_at(json, "relPath"@),
        int_at(json, "pxWid"@),
        int_at(json, "pxHei"@),
        int_at(json, "tileGridSize"@),
    ) {
        (
            Some(uid),
            Some(identifier),
            Some(rel_path),
            Some(px_wid),
            Some(px_hei),
            Some(tile_grid_size),
        ) => Some(
            TilesetDefView { uid, identifier, rel_path, px_wid, px_hei, tile_grid_size },
        ),
        _ => None,
    }
}

fn tileset_from(json: &Json) -> (r: Option<TilesetDef>)
    ensures
        r.deep_view() == decode_tileset(json@),
{
    let uid = match get_int(json, "uid") {
        Some(uid) => uid,
        None => {
            return None;
        },
    };
    let identifier = match get_text(json, "identifier") {
        Some(identifier) => identifier,
        None => {
            return None;
        },
    };
    let rel_path = match get_text(json, "relPath") {
        Some(rel_path) => rel_path,
        None => {
            return None;
        },
    };
    let px_wid = match get_int(json, "pxWid") {
        Some(px_wid) => px_wid,
        None => {
            return None;
        },
    };
    let px_hei = match get_int(json, "pxHei") {
        Some(px_hei) => px_hei,
        None => {
            return None;
        },
    };
    let tile_grid_size = match get_int(json, "tileGridSize") {
        Some(tile_grid_size) => tile_grid_size,
        None => {
            return None;
        },
    };
    let read = TilesetDef { uid, identifier, rel_path, px_wid, px_hei, tile_grid_size };
    proof {
        assert(Some(read.deep_view()) == decode_tileset(json@));
    }
    Some(read)
}

/// The tilesets of an array, where every item is fit.
pub open spec fn decode_tilesets(items: Seq<JsonView>) -> Option<Seq<TilesetDefView>> {
    if forall|i: int| 0 <= i < items.len() ==> (#[trigger] decode_tileset(items[i])) is Some {
        Some(Seq::new(items.len(), |i: int| decode_tileset(items[i]).unwrap()))
    } else {
        None
    }
}

fn tilesets_from(items: &Vec<Json>) -> (r: Option<Vec<TilesetDef>>)
    ensures
        r.deep_view() == decode_tilesets(item_views(items@)),
{
    let ghost views = item_views(items@);
    let mut read: Vec<TilesetDef> = Vec::new();
    let mut i: usize = 0;
    while i < items.len()
        invariant
            i <= items@.len(),
            views == item_views(items@),
            read@.len() == i,
            forall|k: int|
                0 <= k < i ==> decode_tileset(#[trigger] views[k]) == Some(read@[k].deep_view()),
        decreases items@.len() - i,
    {
        match tileset_from(&items[i]) {
            Some(item) => {
                read.push(item);
            },
            None => {
                assert(decode_tileset(views[i as int]) is None);
                return None;
            },
        }
        i += 1;
    }
    proof {
        assert forall|k: int| 0 <= k < views.len() implies (#[trigger] decode_tileset(views[k]))
            is Some by {
            assert(decode_tileset(views[k]) == Some(read@[k].deep_view()));
        }
        assert(read.deep_view() =~= Seq::new(
            views.len(),
            |i: int| decode_tileset(views[i]).unwrap(),
        ));
    }
    Some(read)
}

/// A declared value of an IntGrid layer.
pub open spec fn decode_int_grid_value(json: JsonView) -> Option<IntGridValueDefinitionView> {
    match (
        text_at(json, "color"@),
        maybe_text_at(json, "identifier"@),
    ) {
        (Some(color), Some(identifier)) => Some(
            IntGridValueDefinitionView { color, identifier },
        ),
        _ => None,
    }
}

fn int_grid_value_from(json: &Json) -> (r: Option<IntGridValueDefinition>)
    ensures
        r.deep_view() == decode_int_grid_value(json@),
{
    let color = match get_text(json, "color") {
        Some(color) => color,
        None => {
            return None;
        },
    };
    let identifier = match get_maybe_text(json, "identifier") {
        Some(identifier) => identifier,
        None => {
            return None;
        },
    };
    let read = IntGridValueDefinition { color, identifier };
    proof {
        assert(Some(read.deep_view()) == decode_int_grid_value(json@));
    }
    Some(read)
}

/// The declared values of an array, where every item is fit.
pub open spec fn decode_int_grid_values(items: Seq<JsonView>) -> Option<Seq<IntGridValueDefinitionView>> {
    if forall|i: int| 0 <= i < items.len() ==> (#[trigger] decode_int_grid_value(items[i])) is Some {
        Some(Seq::new(items.len(), |i: int| decode_int_grid_value(items[i]).unwrap()))
    } else {
        None
    }
}

fn int_grid_values_from(items: &Vec<Json>) -> (r: Option<Vec<IntGridValueDefinition>>)
    ensures
        r.deep_view() == decode_int_grid_values(item_views(items@)),
{
    let ghost views = item_views(items@);
    let mut read: Vec<IntGridValueDefinition> = Vec::new();
    let mut i: usize = 0;
    while i < items.len()
        invariant
            i <= items@.len(),
            views == item_views(items@),
            read@.len() == i,
            forall|k: int|
                0 <= k < i ==> decode_int_grid_value(#[trigger] views[k]) == Some(read@[k].deep_view()),
        decreases items@.len() - i,
    {
        match int_grid_value_from(&items[i]) {
            Some(item) => {
                read.push(item);
            },
            None => {
                assert(decode_int_grid_value(views[i as int]) is None);
                return None;
            },
        }
        i += 1;
    }
    proof {
        assert forall|k: int| 0 <= k < views.len() implies (#[trigger] decode_int_grid_value(views[k]))
            is Some by {
            assert(decode_int_grid_value(views[k]) == Some(read@[k].deep_view()));
        }
        assert(read.deep_view() =~= Seq::new(
            views.len(),
            |i: int| decode_int_grid_value(views[i]).unwrap(),
        ));
    }
    Some(read)
}

/// A layer definition.
pub open spec fn decode_layer_def(json: JsonView) -> Option<LayerDefView> {
    match (
        int_at(json, "uid"@),
        text_at(json, "identifier"@),
        layer_type_at(json, "type"@),
        match items_at(json, "intGridValues"@) {
            Some(items) => decode_int_grid_values(items),
            None => None,
        },
    ) {
        (Some(uid), Some(identifier), Some(purple_type), Some(int_grid_values)) => Some(
            LayerDefView { uid, identifier, purple_type, int_grid_values },
        ),
        _ => None,
    }
}

fn layer_def_from(json: &Json) -> (r: Option<LayerDef>)
    ensures
        r.deep_view() == decode_layer_def(json@),
{
    let uid = match get_int(json, "uid") {
        Some(uid) => uid,
        None => {
            return None;
        },
    };
    let identifier = match get_text(json, "identifier") {
        Some(identifier) => identifier,
        None => {
            return None;
        },
    };
    let purple_type = match get_layer_type(json, "type") {
        Some(purple_type) => purple_type,
        None => {
            return None;
        },
    };
    let int_grid_values = match get_items(json, "intGridValues", false) {
        Some(Some(items)) => match int_grid_values_from(items) {
            Some(int_grid_values) => int_grid_values,
            None => {
                return None;
            },
        },
        _ => {
            return None;
        },
    };
    let read = LayerDef { uid, identifier, purple_type, int_grid_values };
    proof {
        assert(Some(read.deep_view()) == decode_layer_def(json@));
    }
    Some(read)
}

/// The layer definitions of an array, where every item is fit.
pub open spec fn decode_layer_defs(items: Seq<JsonView>) -> Option<Seq<LayerDefView>> {
    if forall|i: int| 0 <= i < items.len() ==> (#[trigger] decode_layer_def(items[i])) is Some {
        Some(Seq::new(items.len(), |i: int| decode_layer_def(items[i]).unwrap()))
    } else {
        None
    }
}

fn layer_defs_from(items: &Vec<Json>) -> (r: Option<Vec<LayerDef>>)
    ensures
        r.deep_view() == decode_layer_defs(item_views(items@)),
{
    let ghost views = item_views(items@);
    let mut read: Vec<LayerDef> = Vec::new();
    let mut i: usize = 0;
    while i < items.len()
        invariant
            i <= items@.len(),
            views == item_views(items@),
            read@.len() == i,
            forall|k: int|
                0 <= k < i ==> decode_layer_def(#[trigger] views[k]) == Some(read@[k].deep_view()),
        decreases items@.len() - i,
    {
        match layer_def_from(&items[i]) {
            Some(item) => {
                read.push(item);
            },
            None => {
                assert(decode_layer_def(views[i as int]) is None);
                return None;
            },
        }
        i += 1;
    }
    proof {
        assert forall|k: int| 0 <= k < views.len() implies (#[trigger] decode_layer_def(views[k]))
            is Some by {
            assert(decode_layer_def(views[k]) == Some(read@[k].deep_view()));
        }
        assert(read.deep_view() =~= Seq::new(
            views.len(),
            |i: int| decode_layer_def(views[i]).unwrap(),
        ));
    }
    Some(read)
}

/// An entity definition.
pub open spec fn decode_entity_def(json: JsonView) -> Option<EntityDefView> {
    match (
        int_at(json, "uid"@),
        text_at(json, "identifier"@),
        text_at(json, "color"@),
        int_at(json, "width"@),
        int_at(json, "height"@),
        render_mode_at(json, "renderMode"@),
        maybe_int_at(json, "tileId"@),
        maybe_int_at(json, "tilesetId"@),
    ) {
        (
            Some(uid),
            Some(identifier),
            Some(color),
            Some(width),
            Some(height),
            Some(render_mode),
            Some(tile_id),
            Some(tileset_id),
        ) => Some(
            EntityDefView {
                uid,
                identifier,
                color,
                width,
                height,
                render_mode,
                tile_id,
                tileset_id,
            },
        ),
        _ => None,
    }
}

fn entity_def_from(json: &Json) -> (r: Option<EntityDef>)
    ensures
        r.deep_view() == decode_entity_def(json@),
{
    let uid = match get_int(json, "uid") {
        Some(uid) => uid,
        None => {
            return None;
        },
    };
    let identifier = match get_text(json, "identifier") {
        Some(identifier) => identifier,
        None => {
            return None;
        },
    };
    let color = match get_text(json, "color") {
        Some(color) => color,
        None => {
            return None;
        },
    };
    let width = match get_int(json, "width") {
        Some(width) => width,
        None => {
            return None;
        },
    };
    let height = match get_int(json, "height") {
        Some(height) => height,
        None => {
            return None;
        },
    };
    let render_mode = match get_render_mode(json, "renderMode") {
        Some(render_mode) => render_mode,
        None => {
            return None;
        },
    };
    let tile_id = match get_maybe_int(json, "tileId") {
        Some(tile_id) => tile_id,
        None => {
            return None;
        },
    };
    let tileset_id = match get_maybe_int(json, "tilesetId") {
        Some(tileset_id) => tileset_id,
        None => {
            return None;
        },
    };
    let read = EntityDef {
        uid,
        identifier,
        color,
        width,
        height,
        render_mode,
        tile_id,
        tileset_id,
    };
    proof {
        assert(Some(read.deep_view()) == decode_entity_def(json@));
    }
    Some(read)
}

/// The entity definitions of an array, where every item is fit.
pub open spec fn decode_entity_defs(items: Seq<JsonView>) -> Option<Seq<EntityDefView>> {
    if forall|i: int| 0 <= i < items.len() ==> (#[trigger] decode_entity_def(items[i])) is Some {
        Some(Seq::new(items.len(), |i: int| decode_entity_def(items[i]).unwrap()))
    } else {
        None
    }
}

fn entity_defs_from(items: &Vec<Json>) -> (r: Option<Vec<EntityDef>>)
    ensures
        r.deep_view() == decode_entity_defs(item_views(items@)),
{
    let ghost views = item_views(items@);
    let mut read: Vec<EntityDef> = Vec::new();
    let mut i: usize = 0;
    while i < items.len()
        invariant
            i <= items@.len(),
            views == item_views(items@),
            read@.len() == i,
            forall|k: int|
                0 <= k < i ==> decode_entity_def(#[trigger] views[k]) == Some(read@[k].deep_view()),
        decreases items@.len() - i,
    {
        match entity_def_from(&items[i]) {
            Some(item) => {
                read.push(item);
            },
            None => {
                assert(decode_entity_def(views[i as int]) is None);
                return None;
            },
        }
        i += 1;
    }
    proof {
        assert forall|k: int| 0 <= k < views.len() implies (#[trigger] decode_entity_def(views[k]))
            is Some by {
            assert(decode_entity_def(views[k]) == Some(read@[k].deep_view()));
        }
        assert(read.deep_view() =~= Seq::new(
            views.len(),
            |i: int| decode_entity_def(views[i]).unwrap(),
        ));
    }
    Some(read)
}

/// The definitions of a project.
pub open spec fn decode_defs(json: JsonView) -> Option<DefinitionsView> {
    match (
        match items_at(json, "tilesets"@) {
            Some(items) => decode_tilesets(items),
            None => None,
        },
        match items_at(json, "layers"@) {
            Some(items) => decode_layer_defs(items),
            None => None,
        },
        match items_at(json, "entities"@) {
            Some(items) => decode_entity_defs(items),
            None => None,
        },
    ) {
        (Some(tilesets), Some(layers), Some(entities)) => Some(
            DefinitionsView { tilesets, layers, entities },
        ),
        _ => None,
    }
}

fn defs_from(json: &Json) -> (r: Option<Definitions>)
    ensures
        r.deep_view() == decode_defs(json@),
{
    let tilesets = match get_items(json, "tilesets", false) {
        Some(Some(items)) => match tilesets_from(items) {
            Some(tilesets) => tilesets,
            None => {
                return None;
            },
        },
        _ => {
            return None;
        },
    };
    let layers = match get_items(json, "layers", false) {
        Some(Some(items)) => match layer_defs_from(items) {
            Some(layers) => layers,
            None => {
                return None;
            },
        },
        _ => {
            return None;
        },
    };
    let entities = match get_items(json, "entities", false) {
        Some(Some(items)) => match entity_defs_from(items) {
            Some(entities) => entities,
            None => {
                return None;
            },
        },
        _ => {
            return None;
        },
    };
    let read = Definitions { tilesets, layers, entities };
    proof {
        assert(Some(read.deep_view()) == decode_defs(json@));
    }
    Some(read)
}

/// A project.
pub open spec fn decode_project(json: JsonView) -> Option<ProjectView> {
    match (
        match present(json, "defs"@) {
            Some(value) => decode_defs(value),
            None => None,
        },
        match items_at(json, "levels"@) {
            Some(items) => decode_levels(items),
            None => None,
        },
        bool_at(json, "externalLevels"@),
    ) {
        (Some(defs), Some(levels), Some(external_levels)) => Some(
            ProjectView { defs, levels, external_levels },
        ),
        _ => None,
    }
}

/// Reads a project from a JSON document; `None` where the document is unfit.
pub fn project_from(json: &Json) -> (r: Option<Project>)
    ensures
        r.deep_view() == decode_project(json@),
{
    let defs = match get(json, "defs") {
        Some(value) => match defs_from(value) {
            Some(defs) => defs,
            None => {
                return None;
            },
        },
        None => {
            return None;
        },
    };
    let levels = match get_items(json, "levels", false) {
        Some(Some(items)) => match levels_from(items) {
            Some(levels) => levels,
            None => {
                return None;
            },
        },
        _ => {
            return None;
        },
    };
    let external_levels = match get_bool(json, "externalLevels") {
        Some(external_levels) => external_levels,
        None => {
            return None;
        },
    };
    let read = Project { defs, levels, external_levels };
    proof {
        assert(Some(read.deep_view()) == decode_project(json@));
    }
    Some(read)
}

/// The input is not the data of a project or level.
#[derive(Clone, Copy, Debug, PartialEq, Eq, Structural)]
pub enum ParseError {
    /// The text is not well-formed JSON.
    NotJson,
    /// The document lacks a required member or holds one of the wrong type.
    Unfit,
}

/// What the text of a project file holds.
pub open spec fn parsed_project(text: Seq<u8>) -> Result<ProjectView, ParseError> {
    match json_document(text) {
        Some(json) => match decode_project(json) {
            Some(project) => Ok(project),
            None => Err(ParseError::Unfit),
        },
        None => Err(ParseError::NotJson),
    }
}

/// What the text of the file of a level holds.
pub open spec fn parsed_level(text: Seq<u8>) -> Result<LevelView, ParseError> {
    match json_document(text) {
        Some(json) => match decode_level(json) {
            Some(level) => Ok(level),
            None => Err(ParseError::Unfit),
        },
        None => Err(ParseError::NotJson),
    }
}

impl Project {
    /// Reads the text of a project file as it stands; levels stored outside
    /// stay stubs.
    pub fn load_project(text: &[u8]) -> (r: Result<Project, ParseError>)
        ensures
            match r {
                Ok(project) => parsed_project(text@) == Ok::<ProjectView, ParseError>(
                    project.deep_view(),
                ),
                Err(error) => parsed_project(text@) == Err::<ProjectView, ParseError>(error),
            },
    {
        let json = match parse_json(text) {
            Some(json) => json,
            None => {
                return Err(ParseError::NotJson);
            },
        };
        match project_from(&json) {
            Some(project) => Ok(project),
            None => Err(ParseError::Unfit),
        }
    }
}

impl Level {
    /// Reads the text of the file of a level.
    pub fn new(text: &[u8]) -> (r: Result<Level, ParseError>)
        ensures
            match r {
                Ok(level) => parsed_level(text@) == Ok::<LevelView, ParseError>(level.deep_view()),
                Err(error) => parsed_level(text@) == Err::<LevelView, ParseError>(error),
            },
    {
        let json = match parse_json(text) {
            Some(json) => json,
            None => {
                return Err(ParseError::NotJson);
            },
        };
        match level_from(&json) {
            Some(level) => Ok(level),
            None => Err(ParseError::Unfit),
        }
    }
}

} // verus!
