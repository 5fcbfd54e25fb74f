//! Todo lists, one for each session.
use vstd::prelude::*;

use crate::name_map::NameMap;
use crate::numbers::{dec, decimal, decimal_reads_back, parse_u64, unsigned_value};
use crate::text::{cat, cat3, cat5, join, joined, lowercase, owned, str_eq, texts, to_lowercase};
use crate::value::{
    field_trees, lemma_find, lemma_lookup_push, lemma_table_tree, lookup, no_fields, trees, Data, Fields, Json,
};

use super::{ResultView, ToolContext, ToolError, ToolResult};

verus! {

/// The id of an item, where it is a number.
pub open spec fn id_number(item: Json) -> Option<nat> {
    match item.at("id"@).text() {
        Some(s) => unsigned_value(s, u64::MAX as nat),
        None => None,
    }
}

/// The highest id of the items that is a number, or zero.
pub open spec fn highest_id(items: Seq<Json>) -> nat
    decreases items.len(),
{
    if items.len() == 0 {
        0
    } else {
        let before = highest_id(items.drop_last());
        match id_number(items.last()) {
            Some(n) => if n > before {
                n
            } else {
                before
            },
            None => before,
        }
    }
}

/// Whether an item has that id.
pub open spec fn has_id(item: Json, id: Seq<char>) -> bool {
    item.at("id"@).text() == Some(id)
}

/// Where the first item of that id is.
pub open spec fn find_id(items: Seq<Json>, id: Seq<char>) -> Option<int>
    decreases items.len(),
{
    if items.len() == 0 {
        None
    } else if has_id(items[0], id) {
        Some(0)
    } else {
        match find_id(items.drop_first(), id) {
            Some(k) => Some(k + 1),
            None => None,
        }
    }
}

/// The items that do not have that id.
pub open spec fn without_id(items: Seq<Json>, id: Seq<char>) -> Seq<Json>
    decreases items.len(),
{
    if items.len() == 0 {
        seq![]
    } else {
        let before = without_id(items.drop_last(), id);
        if has_id(items.last(), id) {
            before
        } else {
            before.push(items.last())
        }
    }
}

/// Fields with one of them set: in its place where it is there, else at the end.
pub open spec fn set_field(
    fields: Seq<(Seq<char>, Json)>,
    key: Seq<char>,
    value: Json,
) -> Seq<(Seq<char>, Json)>
    decreases fields.len(),
{
    if fields.len() == 0 {
        seq![(key, value)]
    } else if fields[0].0 == key {
        seq![(key, value)] + fields.drop_first()
    } else {
        seq![fields[0]] + set_field(fields.drop_first(), key, value)
    }
}

/// An item with a field set where a text is given for it.
pub open spec fn with_text(item: Json, key: Seq<char>, text: Option<Seq<char>>) -> Json {
    match text {
        Some(s) => Json::Table(set_field(item.fields(), key, Json::Str(s))),
        None => item,
    }
}

/// A new item.
pub open spec fn new_item(items: Seq<Json>, content: Seq<char>, status: Option<Seq<char>>) -> Json {
    Json::Table(
        no_fields().push(("id"@, Json::Str(dec(highest_id(items) + 1)))).push(
            ("content"@, Json::Str(content)),
        ).push(
            (
                "status"@,
                Json::Str(
                    match status {
                        Some(s) => s,
                        None => "pending"@,
                    },
                ),
            ),
        ),
    )
}

/// An item with the status and the content that are given for it.
pub open spec fn updated_item(item: Json, input: Json) -> Json {
    with_text(
        with_text(item, "status"@, input.at("status"@).text()),
        "content"@,
        input.at("content"@).text(),
    )
}

/// An item as a line of the list.
pub open spec fn item_line(item: Json) -> Seq<char> {
    "- ["@ + (match item.at("status"@).text() {
        Some(s) => s,
        None => "pending"@,
    }) + "] #"@ + item.at("id"@).text_or_empty() + ": "@ + item.at("content"@).text_or_empty()
}

/// The items as lines.
pub open spec fn item_lines(items: Seq<Json>) -> Seq<Seq<char>> {
    Seq::new(items.len(), |i: int| item_line(items[i]))
}

/// A number of items, as a document.
pub open spec fn count_note(op: Seq<char>, count: int) -> Json {
    Json::Table(no_fields().push(("op"@, Json::Str(op))).push(("count"@, Json::Num(count))))
}

/// What an operation comes to: the list after it, and the result or what is
/// missing.
pub struct TodoOutcome {
    pub items: Seq<Json>,
    pub result: Result<ResultView, Seq<char>>,
}

/// What adding an item comes to.
pub open spec fn add_outcome(items: Seq<Json>, input: Json) -> TodoOutcome {
    match input.at("content"@).text() {
        None => TodoOutcome { items, result: Err("Missing 'content' parameter for add"@) },
        Some(content) => {
            let item = new_item(items, content, input.at("status"@).text());
            TodoOutcome {
                items: items.push(item),
                result: Ok(
                    ResultView {
                        success: true,
                        content: "Added todo #"@ + dec(highest_id(items) + 1) + ": "@ + content
                            + " ["@ + (match input.at("status"@).text() {
                            Some(s) => s,
                            None => "pending"@,
                        }) + "]"@,
                        metadata: Some(
                            Json::Table(
                                no_fields().push(("op"@, Json::Str("add"@))).push(
                                    ("item"@, item),
                                ).push(("count"@, Json::Num(items.len() as int + 1))),
                            ),
                        ),
                    },
                ),
            }
        },
    }
}

/// What updating an item comes to.
pub open spec fn update_outcome(items: Seq<Json>, input: Json) -> TodoOutcome {
    match input.at("id"@).text() {
        None => TodoOutcome { items, result: Err("Missing 'id' parameter for update"@) },
        Some(id) => match find_id(items, id) {
            None => TodoOutcome {
                items,
                result: Ok(
                    ResultView {
                        success: false,
                        content: "Todo #"@ + id + " not found"@,
                        metadata: None,
                    },
                ),
            },
            Some(k) => {
                let item = updated_item(items[k], input);
                TodoOutcome {
                    items: items.update(k, item),
                    result: Ok(
                        ResultView {
                            success: true,
                            content: "Todo #"@ + item.at("id"@).text_or_empty() + ": "@ + item.at(
                                "content"@,
                            ).text_or_empty() + " ["@ + item.at("status"@).text_or_empty() + "]"@,
                            metadata: Some(
                                Json::Table(
                                    no_fields().push(("op"@, Json::Str("update"@))).push(
                                        ("item"@, item),
                                    ),
                                ),
                            ),
                        },
                    ),
                }
            },
        },
    }
}

/// What removing an item comes to.
pub open spec fn remove_outcome(items: Seq<Json>, input: Json) -> TodoOutcome {
    match input.at("id"@).text() {
        None => TodoOutcome { items, result: Err("Missing 'id' parameter for remove"@) },
        Some(id) => {
            let left = without_id(items, id);
            let changed = left.len() != items.len();
            TodoOutcome {
                items: left,
                result: Ok(
                    ResultView {
                        success: changed,
                        content: if changed {
                            "Removed todo #"@ + id
                        } else {
                            "Todo #"@ + id + " not found"@
                        },
                        metadata: Some(count_note("remove"@, left.len() as int)),
                    },
                ),
            }
        },
    }
}

/// What listing the items comes to.
pub open spec fn list_outcome(items: Seq<Json>) -> TodoOutcome {
    TodoOutcome {
        items,
        result: Ok(
            ResultView {
                success: true,
                content: if items.len() == 0 {
                    "No todos yet. Use op=add to create one."@
                } else {
                    joined(item_lines(items), "\n"@)
                },
                metadata: Some(count_note("list"@, items.len() as int)),
            },
        ),
    }
}

/// What an operation, in lowercase, comes to.
pub open spec fn todo_outcome(items: Seq<Json>, op: Seq<char>, input: Json) -> TodoOutcome {
    if op == "add"@ {
        add_outcome(items, input)
    } else if op == "update"@ {
        update_outcome(items, input)
    } else if op == "remove"@ {
        remove_outcome(items, input)
    } else if op == "clear"@ {
        TodoOutcome {
            items: seq![],
            result: Ok(
                ResultView {
                    success: true,
                    content: "Cleared all todos"@,
                    metadata: Some(count_note("clear"@, 0)),
                },
            ),
        }
    } else if op == "list"@ {
        list_outcome(items)
    } else {
        TodoOutcome {
            items,
            result: Ok(
                ResultView {
                    success: false,
                    content: "Unknown operation '"@ + op
                        + "'. Valid ops: list, add, update, remove, clear"@,
                    metadata: None,
                },
            ),
        }
    }
}

/// Whether items make a list: each is a table with a text as its id, and no two
/// have the same.
pub open spec fn is_list(items: Seq<Json>) -> bool {
    &&& forall|i: int|
        0 <= i < items.len() ==> (#[trigger] items[i]) is Table && items[i].at("id"@).text() is Some
    &&& forall|i: int, j: int|
        0 <= i < j < items.len() ==> (#[trigger] items[i]).at("id"@).text() != (
        #[trigger] items[j]).at("id"@).text()
}

/// No item has an id above the highest.
proof fn lemma_highest(items: Seq<Json>)
    ensures
        forall|i: int|
            0 <= i < items.len() ==> (id_number(#[trigger] items[i]) matches Some(n) ==> n
                <= highest_id(items)),
    decreases items.len(),
{
    if items.len() > 0 {
        lemma_highest(items.drop_last());
        assert forall|i: int| 0 <= i < items.len() implies (id_number(
            #[trigger] items[i],
        ) matches Some(n) ==> n <= highest_id(items)) by {
            if i < items.len() - 1 {
                assert(items.drop_last()[i] == items[i]);
            }
        }
    }
}

/// The id of a new item is one that no item has.
pub proof fn new_ids_are_fresh(items: Seq<Json>)
    requires
        highest_id(items) < u64::MAX,
    ensures
        forall|i: int|
            0 <= i < items.len() ==> !has_id(#[trigger] items[i], dec(highest_id(items) + 1)),
{
    lemma_highest(items);
    decimal_reads_back(highest_id(items) + 1);
    assert forall|i: int| 0 <= i < items.len() implies !has_id(
        #[trigger] items[i],
        dec(highest_id(items) + 1),
    ) by {
        if has_id(items[i], dec(highest_id(items) + 1)) {
            assert(id_number(items[i]) == Some(highest_id(items) + 1));
        }
    }
}

/// Setting a field leaves the others.
proof fn lemma_set_field(
    fields: Seq<(Seq<char>, Json)>,
    key: Seq<char>,
    value: Json,
    other: Seq<char>,
)
    ensures
        lookup(set_field(fields, key, value), key) == Some(value),
        other != key ==> lookup(set_field(fields, key, value), other) == lookup(fields, other),
    decreases fields.len(),
{
    let after = set_field(fields, key, value);
    if fields.len() == 0 {
        assert(after.drop_first() =~= seq![]);
        assert(lookup(seq![], other) is None);
    } else if fields[0].0 == key {
        assert(after.drop_first() =~= fields.drop_first());
    } else {
        lemma_set_field(fields.drop_first(), key, value, other);
        assert(after.drop_first() =~= set_field(fields.drop_first(), key, value));
    }
}

/// Updating an item leaves it a table with the same id.
proof fn lemma_updated(item: Json, input: Json)
    requires
        item is Table,
    ensures
        updated_item(item, input) is Table,
        updated_item(item, input).at("id"@) == item.at("id"@),
        input.at("status"@).text() matches Some(s) ==> updated_item(item, input).at("status"@)
            == Json::Str(s),
        input.at("content"@).text() matches Some(s) ==> updated_item(item, input).at("content"@)
            == Json::Str(s),
{
    reveal_strlit("id");
    reveal_strlit("status");
    reveal_strlit("content");
    assert("id"@.len() == 2 && "status"@.len() == 6 && "content"@.len() == 7);
    let first = with_text(item, "status"@, input.at("status"@).text());
    match input.at("status"@).text() {
        Some(s) => {
            lemma_set_field(item.fields(), "status"@, Json::Str(s), "id"@);
            lemma_set_field(item.fields(), "status"@, Json::Str(s), "content"@);
        },
        None => {},
    }
    match input.at("content"@).text() {
        Some(s) => {
            lemma_set_field(first.fields(), "content"@, Json::Str(s), "id"@);
            lemma_set_field(first.fields(), "content"@, Json::Str(s), "status"@);
        },
        None => {},
    }
}

/// Where the first item of an id is.
proof fn lemma_find_id(items: Seq<Json>, id: Seq<char>)
    ensures
        find_id(items, id) matches Some(k) ==> 0 <= k < items.len() && has_id(items[k], id)
            && forall|j: int| 0 <= j < k ==> !has_id(#[trigger] items[j], id),
        find_id(items, id) is None ==> forall|j: int|
            0 <= j < items.len() ==> !has_id(#[trigger] items[j], id),
    decreases items.len(),
{
    if items.len() > 0 && !has_id(items[0], id) {
        let rest = items.drop_first();
        lemma_find_id(rest, id);
        match find_id(rest, id) {
            Some(k) => {
                assert(items[k + 1] == rest[k]);
                assert forall|j: int| 0 <= j < k + 1 implies !has_id(#[trigger] items[j], id) by {
                    if j > 0 {
                        assert(items[j] == rest[j - 1]);
                    }
                }
            },
            None => {
                assert forall|j: int| 0 <= j < items.len() implies !has_id(
                    #[trigger] items[j],
                    id,
                ) by {
                    if j > 0 {
                        assert(items[j] == rest[j - 1]);
                    }
                }
            },
        }
    }
}

/// Which items are left when an id is taken away.
proof fn lemma_without_id(items: Seq<Json>, id: Seq<char>)
    requires
        is_list(items),
    ensures
        is_list(without_id(items, id)),
        forall|i: int|
            0 <= i < without_id(items, id).len() ==> items.contains(
                #[trigger] without_id(items, id)[i],
            ) && !has_id(without_id(items, id)[i], id),
        forall|i: int|
            0 <= i < items.len() && !has_id(#[trigger] items[i], id) ==> without_id(
                items,
                id,
            ).contains(items[i]),
    decreases items.len(),
{
    if items.len() > 0 {
        let head = items.drop_last();
        assert(is_list(head)) by {
            assert forall|i: int| 0 <= i < head.len() implies (#[trigger] head[i]) is Table
                && head[i].at("id"@).text() is Some by {
                assert(head[i] == items[i]);
            }
            assert forall|i: int, j: int| 0 <= i < j < head.len() implies (#[trigger] head[i]).at(
                "id"@,
            ).text() != (#[trigger] head[j]).at("id"@).text() by {
                assert(head[i] == items[i] && head[j] == items[j]);
            }
        }
        lemma_without_id(head, id);
        let before = without_id(head, id);
        let after = without_id(items, id);
        let last = items.last();
        assert forall|i: int| 0 <= i < after.len() implies items.contains(#[trigger] after[i])
            && !has_id(after[i], id) by {
            if i < before.len() {
                assert(after[i] == before[i]);
                let k = choose|k: int| 0 <= k < head.len() && head[k] == before[i];
                assert(items[k] == after[i]);
            } else {
                assert(items[items.len() - 1] == after[i]);
            }
        }
        assert forall|i: int| 0 <= i < items.len() && !has_id(
            #[trigger] items[i],
            id,
        ) implies after.contains(items[i]) by {
            if i < head.len() {
                assert(head[i] == items[i]);
                let k = choose|k: int| 0 <= k < before.len() && before[k] == head[i];
                assert(after[k] == items[i]);
            } else {
                assert(after[after.len() - 1] == items[i]);
            }
        }
        assert(is_list(after)) by {
            assert forall|i: int| 0 <= i < after.len() implies (#[trigger] after[i]) is Table
                && after[i].at("id"@).text() is Some by {
                assert(items.contains(after[i]));
                let k = choose|k: int| 0 <= k < items.len() && items[k] == after[i];
                assert(items[k] is Table);
            }
            assert forall|i: int, j: int| 0 <= i < j < after.len() implies (#[trigger] after[i]).at(
                "id"@,
            ).text() != (#[trigger] after[j]).at("id"@).text() by {
                assert(after[i] == before[i]);
                if j < before.len() {
                    assert(after[j] == before[j]);
                } else {
                    assert(head.contains(before[i]));
                    let k = choose|k: int| 0 <= k < head.len() && head[k] == before[i];
                    assert(items[k] == before[i]);
                    assert(items[items.len() - 1] == after[j]);
                }
            }
        }
    } else {
        assert(without_id(items, id) =~= seq![]);
    }
}

/// Every operation keeps the items a list: tables with distinct ids.
pub proof fn operations_keep_ids_distinct(items: Seq<Json>, op: Seq<char>, input: Json)
    requires
        is_list(items),
        op == "add"@ ==> highest_id(items) < u64::MAX,
    ensures
        is_list(todo_outcome(items, op, input).items),
{
    let after = todo_outcome(items, op, input).items;
    if op == "add"@ {
        match input.at("content"@).text() {
            Some(content) => {
                let item = new_item(items, content, input.at("status"@).text());
                new_ids_are_fresh(items);
                lemma_find(item->Table_0, 0, "id"@);
                assert forall|i: int, j: int| 0 <= i < j < after.len() implies (
                #[trigger] after[i]).at("id"@).text() != (#[trigger] after[j]).at("id"@).text() by {
                    assert(after[i] == items[i]);
                    if j < items.len() {
                        assert(after[j] == items[j]);
                    } else {
                        assert(!has_id(items[i], dec(highest_id(items) + 1)));
                    }
                }
                assert forall|i: int| 0 <= i < after.len() implies (#[trigger] after[i]) is Table
                    && after[i].at("id"@).text() is Some by {
                    if i < items.len() {
                        assert(after[i] == items[i]);
                    }
                }
            },
            None => {},
        }
    } else if op == "update"@ {
        match input.at("id"@).text() {
            Some(id) => {
                lemma_find_id(items, id);
                match find_id(items, id) {
                    Some(k) => {
                        lemma_updated(items[k], input);
                        assert forall|i: int, j: int| 0 <= i < j < after.len() implies (
                        #[trigger] after[i]).at("id"@).text() != (#[trigger] after[j]).at(
                            "id"@,
                        ).text() by {
                            assert(after[i].at("id"@) == items[i].at("id"@));
                            assert(after[j].at("id"@) == items[j].at("id"@));
                        }
                        assert forall|i: int| 0 <= i < after.len() implies (
                        #[trigger] after[i]) is Table && after[i].at("id"@).text() is Some by {
                            assert(after[i].at("id"@) == items[i].at("id"@));
                        }
                    },
                    None => {},
                }
            },
            None => {},
        }
    } else if op == "remove"@ {
        match input.at("id"@).text() {
            Some(id) => {
                lemma_without_id(items, id);
            },
            None => {},
        }
    }
}

/// An item that is removed is gone, and every other item stays.
pub proof fn removal_takes_only_its_item(items: Seq<Json>, id: Seq<char>)
    requires
        is_list(items),
    ensures
        forall|i: int|
            0 <= i < items.len() ==> without_id(items, id).contains(#[trigger] items[i])
                == !has_id(items[i], id),
{
    lemma_without_id(items, id);
    let left = without_id(items, id);
    assert forall|i: int| 0 <= i < items.len() implies left.contains(#[trigger] items[i])
        == !has_id(items[i], id) by {
        if left.contains(items[i]) {
            let k = choose|k: int| 0 <= k < left.len() && left[k] == items[i];
            assert(!has_id(left[k], id));
        }
    }
}

/// An item that is updated keeps its id, and takes the status and the content
/// that are given; every other item stays as it is.
pub proof fn update_changes_only_its_item(items: Seq<Json>, input: Json, k: int)
    requires
        is_list(items),
        input.at("id"@).text() is Some,
        find_id(items, input.at("id"@).text()->0) == Some(k),
    ensures
        ({
            let after = update_outcome(items, input).items;
            &&& 0 <= k < items.len()
            &&& after.len() == items.len()
            &&& forall|i: int| 0 <= i < items.len() && i != k ==> #[trigger] after[i] == items[i]
            &&& after[k].at("id"@) == items[k].at("id"@)
            &&& input.at("status"@).text() matches Some(s) ==> after[k].at("status"@) == Json::Str(s)
            &&& input.at("content"@).text() matches Some(s) ==> after[k].at("content"@)
                == Json::Str(s)
        }),
{
    lemma_find_id(items, input.at("id"@).text()->0);
    assert(items[k] is Table);
    lemma_updated(items[k], input);
}

/// Whether a tool's result, or the error in its place, is what an outcome says.
pub open spec fn is_result(r: Result<ToolResult, ToolError>, want: Result<ResultView, Seq<char>>) -> bool {
    match want {
        Ok(v) => r is Ok && r->Ok_0@ == v,
        Err(message) => r is Err && r->Err_0.message@ == message,
    }
}

/// The highest id of the items that is a number, or zero.
fn max_id(items: &Vec<Data>) -> (r: u64)
    ensures
        r == highest_id(trees(items@)),
{
    let ghost all = trees(items@);
    let mut max: u64 = 0;
    proof {
        assert(all.take(0) =~= seq![]);
    }
    for i in 0..items.len()
        invariant
            all == trees(items@),
            max == highest_id(all.take(i as int)),
    {
        proof {
            assert(all.take(i + 1).drop_last() =~= all.take(i as int));
            assert(all.take(i + 1).last() == items@[i as int]@);
        }
        match items[i].str_at("id") {
            Some(s) => match parse_u64(s) {
                Some(n) => {
                    if n > max {
                        max = n;
                    }
                },
                None => {},
            },
            None => {},
        }
    }
    proof {
        assert(all.take(all.len() as int) =~= all);
    }
    max
}

/// The id of a new item.
pub fn next_id(items: &Vec<Data>) -> (r: String)
    requires
        highest_id(trees(items@)) < u64::MAX,
    ensures
        r@ == dec(highest_id(trees(items@)) + 1),
{
    decimal(max_id(items) + 1)
}

/// Whether an item has that id.
fn item_has_id(item: &Data, id: &str) -> (r: bool)
    ensures
        r == has_id(item@, id@),
{
    match item.str_at("id") {
        Some(s) => str_eq(s, id),
        None => false,
    }
}

/// Where the first item of that id is.
fn position_of(items: &Vec<Data>, id: &str) -> (r: Option<usize>)
    ensures
        match find_id(trees(items@), id@) {
            Some(k) => r is Some && r->0 == k && 0 <= k < items@.len(),
            None => r is None,
        },
{
    let ghost all = trees(items@);
    let mut i: usize = 0;
    proof {
        assert(all.skip(0) =~= all);
    }
    while i < items.len()
        invariant
            i <= items@.len(),
            all == trees(items@),
            match find_id(all.skip(i as int), id@) {
                Some(k) => find_id(all, id@) == Some(k + i),
                None => find_id(all, id@) is None,
            },
        decreases items@.len() - i,
    {
        proof {
            assert(all.skip(i as int)[0] == items@[i as int]@);
            assert(all.skip(i as int).drop_first() =~= all.skip(i + 1));
        }
        if item_has_id(&items[i], id) {
            return Some(i);
        }
        i = i + 1;
    }
    None
}

/// Fields with one of them set to a text.
fn set_text(fields: &Vec<(String, Data)>, key: &str, value: &str) -> (r: Vec<(String, Data)>)
    ensures
        field_trees(r@) == set_field(field_trees(fields@), key@, Json::Str(value@)),
{
    let ghost all = field_trees(fields@);
    let ghost goal = set_field(all, key@, Json::Str(value@));
    let mut out: Vec<(String, Data)> = Vec::new();
    let mut i: usize = 0;
    proof {
        assert(all.skip(0) =~= all);
        assert(field_trees(out@) + goal =~= goal);
    }
    while i < fields.len() && !str_eq(fields[i].0.as_str(), key)
        invariant
            i <= fields@.len(),
            all == field_trees(fields@),
            goal == field_trees(out@) + set_field(all.skip(i as int), key@, Json::Str(value@)),
        decreases fields@.len() - i,
    {
        let ghost before = field_trees(out@);
        let ghost rest = all.skip(i as int);
        out.push((fields[i].0.clone(), fields[i].1.clone()));
        proof {
            assert(rest[0] == all[i as int]);
            assert(rest.drop_first() =~= all.skip(i + 1));
            assert(field_trees(out@) =~= before.push(all[i as int]));
            assert(before + (seq![rest[0]] + set_field(rest.drop_first(), key@, Json::Str(value@)))
                =~= field_trees(out@) + set_field(all.skip(i + 1), key@, Json::Str(value@)));
        }
        i = i + 1;
    }
    let ghost before = field_trees(out@);
    let ghost rest = all.skip(i as int);
    out.push((owned(key), Data::text(value)));
    proof {
        assert(field_trees(out@) =~= before.push((key@, Json::Str(value@))));
    }
    if i < fields.len() {
        proof {
            assert(rest[0] == all[i as int]);
            assert(goal =~= field_trees(out@) + all.skip(i + 1));
        }
        i = i + 1;
        let ghost first = field_trees(out@);
        let ghost from = i as int;
        while i < fields.len()
            invariant
                0 <= from <= i <= fields@.len(),
                all == field_trees(fields@),
                field_trees(out@) == first + all.subrange(from, i as int),
            decreases fields@.len() - i,
        {
            let ghost now = field_trees(out@);
            out.push((fields[i].0.clone(), fields[i].1.clone()));
            proof {
                assert(field_trees(out@) =~= now.push(all[i as int]));
                assert(all.subrange(from, i + 1) =~= all.subrange(from, i as int).push(
                    all[i as int],
                ));
            }
            i = i + 1;
        }
        proof {
            assert(all.subrange(from, i as int) =~= all.skip(from));
            assert(field_trees(out@) =~= goal);
        }
    } else {
        proof {
            assert(field_trees(out@) =~= goal);
        }
    }
    out
}

/// An item with a field set where a text is given for it.
fn put_text(item: Data, key: &str, text: Option<&str>) -> (r: Data)
    ensures
        r@ == with_text(
            item@,
            key@,
            match text {
                Some(s) => Some(s@),
                None => None,
            },
        ),
{
    match text {
        None => item,
        Some(s) => {
            let fields = match item.as_table() {
                Some(fields) => set_text(fields, key, s),
                None => {
                    let none: Vec<(String, Data)> = Vec::new();
                    proof {
                        assert(field_trees(none@) =~= item@.fields());
                    }
                    set_text(&none, key, s)
                },
            };
            proof {
                lemma_table_tree(fields);
            }
            Data::Table(fields)
        },
    }
}

/// A number of items, as a document.
fn count_document(op: &str, count: usize) -> (r: Data)
    ensures
        r@ == count_note(op@, count as int),
{
    let mut f = Fields::new();
    f.put_str("op", op);
    f.put_uint("count", count as u64);
    f.done()
}

/// An item as a line of the list.
fn line_of(item: &Data) -> (r: String)
    ensures
        r@ == item_line(item@),
{
    let status = match item.str_at("status") {
        Some(s) => owned(s),
        None => owned("pending"),
    };
    let mut line = cat5(
        "- [",
        status.as_str(),
        "] #",
        item.text_at("id").as_str(),
        ": ",
    );
    line.append(item.text_at("content").as_str());
    line
}

/// Adds an item.
fn add_item(items: &mut Vec<Data>, input: &Data) -> (r: Result<ToolResult, ToolError>)
    requires
        highest_id(trees(old(items)@)) < u64::MAX,
    ensures
        ({
            let out = add_outcome(trees(old(items)@), input@);
            trees(final(items)@) == out.items && is_result(r, out.result)
        }),
{
    let content = match input.str_at("content") {
        Some(s) => owned(s),
        None => {
            return Err(ToolError::new("Missing 'content' parameter for add"));
        },
    };
    let ghost before = trees(items@);
    let id = next_id(items);
    let status = match input.str_at("status") {
        Some(s) => owned(s),
        None => owned("pending"),
    };
    let mut f = Fields::new();
    f.put_str("id", id.as_str());
    f.put_str("content", content.as_str());
    f.put_str("status", status.as_str());
    let item = f.done();
    let shown = item.clone();
    items.push(item);
    proof {
        assert(trees(items@) =~= before.push(item@));
    }
    let mut text = cat5("Added todo #", id.as_str(), ": ", content.as_str(), " [");
    text.append(status.as_str());
    text.append("]");
    let mut note = Fields::new();
    note.put_str("op", "add");
    note.put("item", shown);
    note.put_uint("count", items.len() as u64);
    Ok(ToolResult { success: true, content: text, metadata: Some(note.done()) })
}

/// Updates an item.
fn update_item(items: &mut Vec<Data>, input: &Data) -> (r: Result<ToolResult, ToolError>)
    ensures
        ({
            let out = update_outcome(trees(old(items)@), input@);
            trees(final(items)@) == out.items && is_result(r, out.result)
        }),
{
    let id = match input.str_at("id") {
        Some(s) => owned(s),
        None => {
            return Err(ToolError::new("Missing 'id' parameter for update"));
        },
    };
    let ghost before = trees(items@);
    match position_of(items, id.as_str()) {
        None => Ok(
            ToolResult {
                success: false,
                content: cat3("Todo #", id.as_str(), " not found"),
                metadata: None,
            },
        ),
        Some(k) => {
            let mut item = items[k].clone();
            item = put_text(item, "status", input.str_at("status"));
            item = put_text(item, "content", input.str_at("content"));
            proof {
                assert(item@ == updated_item(before[k as int], input@));
            }
            let mut text = cat5(
                "Todo #",
                item.text_at("id").as_str(),
                ": ",
                item.text_at("content").as_str(),
                " [",
            );
            text.append(item.text_at("status").as_str());
            text.append("]");
            let mut note = Fields::new();
            note.put_str("op", "update");
            note.put("item", item.clone());
            items.set(k, item);
            proof {
                assert(trees(items@) =~= before.update(k as int, item@));
            }
            Ok(ToolResult { success: true, content: text, metadata: Some(note.done()) })
        },
    }
}

/// Removes an item.
fn remove_item(items: &mut Vec<Data>, input: &Data) -> (r: Result<ToolResult, ToolError>)
    ensures
        ({
            let out = remove_outcome(trees(old(items)@), input@);
            trees(final(items)@) == out.items && is_result(r, out.result)
        }),
{
    let id = match input.str_at("id") {
        Some(s) => owned(s),
        None => {
            return Err(ToolError::new("Missing 'id' parameter for remove"));
        },
    };
    let ghost all = trees(items@);
    let before: usize = items.len();
    let mut left: Vec<Data> = Vec::new();
    proof {
        assert(trees(left@) =~= without_id(all.take(0), id@));
    }
    for i in 0..items.len()
        invariant
            all == trees(items@),
            trees(left@) == without_id(all.take(i as int), id@),
    {
        let ghost now = trees(left@);
        proof {
            assert(all.take(i + 1).drop_last() =~= all.take(i as int));
            assert(all.take(i + 1).last() == items@[i as int]@);
        }
        if !item_has_id(&items[i], id.as_str()) {
            let item = items[i].clone();
            left.push(item);
            proof {
                assert(trees(left@) =~= now.push(item@));
            }
        }
    }
    proof {
        assert(all.take(all.len() as int) =~= all);
    }
    let count: usize = left.len();
    let changed = before != count;
    *items = left;
    let content = if changed {
        cat("Removed todo #", id.as_str())
    } else {
        cat3("Todo #", id.as_str(), " not found")
    };
    Ok(ToolResult { success: changed, content, metadata: Some(count_document("remove", count)) })
}

/// Lists the items.
fn list_items(items: &Vec<Data>) -> (r: ToolResult)
    ensures
        is_result(Ok::<ToolResult, ToolError>(r), list_outcome(trees(items@)).result),
{
    let ghost all = trees(items@);
    let content = if items.len() == 0 {
        owned("No todos yet. Use op=add to create one.")
    } else {
        let mut rows: Vec<String> = Vec::new();
        for i in 0..items.len()
            invariant
                rows@.len() == i,
                all == trees(items@),
                forall|j: int| 0 <= j < i ==> #[trigger] rows@[j]@ == item_line(all[j]),
        {
            rows.push(line_of(&items[i]));
        }
        proof {
            assert(texts(rows@) =~= item_lines(all));
        }
        join(&rows, "\n")
    };
    ToolResult {
        success: true,
        content,
        metadata: Some(count_document("list", items.len())),
    }
}

/// The todo lists of all sessions.
pub struct TodoListTool {
    lists: NameMap<Vec<Data>>,
}

impl View for TodoListTool {
    type V = Map<Seq<char>, Seq<Json>>;

    closed spec fn view(&self) -> Map<Seq<char>, Seq<Json>> {
        self.lists@.map_values(|items: Vec<Data>| trees(items@))
    }
}

/// The list of a session: an empty one where it has none.
pub open spec fn list_of(lists: Map<Seq<char>, Seq<Json>>, session: Seq<char>) -> Seq<Json> {
    if lists.contains_key(session) {
        lists[session]
    } else {
        seq![]
    }
}

/// Whether the list of one session is now that one, and those of all other
/// sessions are as they were.
pub open spec fn lists_after(
    before: Map<Seq<char>, Seq<Json>>,
    after: Map<Seq<char>, Seq<Json>>,
    session: Seq<char>,
    items: Seq<Json>,
) -> bool {
    forall|s: Seq<char>| #[trigger]
        list_of(after, s) == if s == session {
            items
        } else {
            list_of(before, s)
        }
}

/// The operation that is asked for: that of the field `op`, else the list.
pub open spec fn asked_op(input: Json) -> Seq<char> {
    match input.at("op"@).text() {
        Some(s) => s,
        None => "list"@,
    }
}

/// The operation that is asked for, in lowercase.
fn lowercase_op(input: &Data) -> (r: String)
    ensures
        r@ == lowercase(asked_op(input@)),
{
    match input.str_at("op") {
        Some(s) => to_lowercase(s),
        None => to_lowercase("list"),
    }
}

impl TodoListTool {
    /// The map of the lists is in order.
    pub closed spec fn wf(&self) -> bool {
        self.lists.wf()
    }

    /// No lists.
    pub fn new() -> (r: TodoListTool)
        ensures
            r.wf(),
            (r@ == Map::<Seq<char>, Seq<Json>>::empty()),
    {
        let r = TodoListTool { lists: NameMap::new() };
        proof {
            assert(r@ =~= Map::<Seq<char>, Seq<Json>>::empty());
        }
        r
    }

    /// The list of a session.
    pub fn list_todos(&self, session: &str) -> (r: Vec<Data>)
        requires
            self.wf(),
        ensures
            trees(r@) == list_of(self@, session@),
    {
        let mut out: Vec<Data> = Vec::new();
        match self.lists.get(session) {
            Some(items) => {
                let ghost all = trees(items@);
                for i in 0..items.len()
                    invariant
                        out@.len() == i,
                        all == trees(items@),
                        forall|j: int| 0 <= j < i ==> #[trigger] out@[j]@ == all[j],
                {
                    out.push(items[i].clone());
                }
                proof {
                    assert(trees(out@) =~= all);
                }
            },
            None => {
                proof {
                    assert(trees(out@) =~= seq![]);
                }
            },
        }
        out
    }

    /// Whether the session's list can take one more item.
    pub fn has_room(&self, session: &str) -> (r: bool)
        requires
            self.wf(),
        ensures
            r == (highest_id(list_of(self@, session@)) < u64::MAX),
    {
        let items = self.list_todos(session);
        max_id(&items) < u64::MAX
    }

    /// Does an operation, given in lowercase, on the list of a session.
    pub fn apply(&mut self, session: &str, op: &str, input: &Data) -> (r: Result<
        ToolResult,
        ToolError,
    >)
        requires
            old(self).wf(),
            op@ == "add"@ ==> highest_id(list_of(old(self)@, session@)) < u64::MAX,
        ensures
            final(self).wf(),
            ({
                let out = todo_outcome(list_of(old(self)@, session@), op@, input@);
                lists_after(old(self)@, final(self)@, session@, out.items) && is_result(
                    r,
                    out.result,
                )
            }),
    {
        let mut items = self.list_todos(session);
        let ghost before = trees(items@);
        let r = if str_eq(op, "add") {
            add_item(&mut items, input)
        } else if str_eq(op, "update") {
            update_item(&mut items, input)
        } else if str_eq(op, "remove") {
            remove_item(&mut items, input)
        } else if str_eq(op, "clear") {
            items = Vec::new();
            proof {
                assert(trees(items@) =~= seq![]);
            }
            Ok(
                ToolResult {
                    success: true,
                    content: owned("Cleared all todos"),
                    metadata: Some(count_document("clear", 0)),
                },
            )
        } else if str_eq(op, "list") {
            Ok(list_items(&items))
        } else {
            Ok(
                ToolResult {
                    success: false,
                    content: cat3(
                        "Unknown operation '",
                        op,
                        "'. Valid ops: list, add, update, remove, clear",
                    ),
                    metadata: None,
                },
            )
        };
        let ghost after = trees(items@);
        self.lists.insert(session, items);
        proof {
            assert(self@ =~= old(self)@.insert(session@, after));
        }
        r
    }

    /// Does the operation that is asked for on the list of the session. Without
    /// an operation the list is shown. A list whose ids are used up takes no new item.
    pub fn execute(&mut self, ctx: &ToolContext, input: &Data) -> (r: Result<ToolResult, ToolError>)
        requires
            old(self).wf(),
            lowercase(asked_op(input@)) == "add"@ ==> highest_id(
                list_of(old(self)@, ctx.session_id@),
            ) < u64::MAX,
        ensures
            final(self).wf(),
            ({
                let out = todo_outcome(
                    list_of(old(self)@, ctx.session_id@),
                    lowercase(asked_op(input@)),
                    input@,
                );
                lists_after(old(self)@, final(self)@, ctx.session_id@, out.items) && is_result(
                    r,
                    out.result,
                )
            }),
    {
        let op = lowercase_op(input);
        self.apply(ctx.session_id.as_str(), op.as_str(), input)
    }

    /// Does the operation that is asked for on the list of the session, as `execute`
    /// does. Nothing is done where a new item is asked for and the ids of the list are
    /// used up.
    pub fn try_execute(&mut self, ctx: &ToolContext, input: &Data) -> (r: Option<
        Result<ToolResult, ToolError>,
    >)
        requires
            old(self).wf(),
        ensures
            final(self).wf(),
            r is None <==> lowercase(asked_op(input@)) == "add"@ && highest_id(
                list_of(old(self)@, ctx.session_id@),
            ) >= u64::MAX,
            match r {
                Some(r) => {
                    let out = todo_outcome(
                        list_of(old(self)@, ctx.session_id@),
                        lowercase(asked_op(input@)),
                        input@,
                    );
                    lists_after(old(self)@, final(self)@, ctx.session_id@, out.items) && is_result(
                        r,
                        out.result,
                    )
                },
                None => *final(self) == *old(self),
            },
    {
        if str_eq(lowercase_op(input).as_str(), "add") && !self.has_room(ctx.session_id.as_str()) {
            return None;
        }
        Some(self.execute(ctx, input))
    }
}

/// The names of the operations differ.
proof fn lemma_op_names()
    ensures
        "add"@ != "update"@,
        "add"@ != "remove"@,
        "add"@ != "clear"@,
        "add"@ != "list"@,
        "update"@ != "remove"@,
        "update"@ != "clear"@,
        "update"@ != "list"@,
        "remove"@ != "clear"@,
        "remove"@ != "list"@,
        "clear"@ != "list"@,
{
    reveal_strlit("add");
    reveal_strlit("update");
    reveal_strlit("remove");
    reveal_strlit("clear");
    reveal_strlit("list");
    assert("add"@.len() == 3);
    assert("update"@.len() == 6);
    assert("remove"@.len() == 6);
    assert("clear"@.len() == 5);
    assert("list"@.len() == 4);
    assert("update"@[0] == 'u' && "remove"@[0] == 'r');
}

/// The names of the fields of items and notes differ.
proof fn lemma_item_names()
    ensures
        "id"@ != "content"@,
        "id"@ != "status"@,
        "id"@ != "op"@,
        "id"@ != "item"@,
        "id"@ != "count"@,
        "content"@ != "status"@,
        "content"@ != "op"@,
        "content"@ != "item"@,
        "content"@ != "count"@,
        "status"@ != "op"@,
        "status"@ != "item"@,
        "status"@ != "count"@,
        "op"@ != "item"@,
        "op"@ != "count"@,
        "item"@ != "count"@,
{
    reveal_strlit("id");
    reveal_strlit("content");
    reveal_strlit("status");
    reveal_strlit("op");
    reveal_strlit("item");
    reveal_strlit("count");
    assert("id"@.len() == 2);
    assert("content"@.len() == 7);
    assert("status"@.len() == 6);
    assert("op"@.len() == 2);
    assert("item"@.len() == 4);
    assert("count"@.len() == 5);
    assert("id"@[0] == 'i' && "op"@[0] == 'o');
}


/// Adding puts one item behind the others and leaves those as they are: with a new id,
/// the content that is given, and the status that is given, else `pending`. Without a
/// content nothing is added, and the call is an error.
pub proof fn adding_puts_an_item_last(items: Seq<Json>, input: Json)
    ensures
        ({
            let out = todo_outcome(items, "add"@, input);
            match input.at("content"@) {
                Json::Str(content) => {
                    &&& out.items.len() == items.len() + 1
                    &&& items == out.items.drop_last()
                    &&& out.items.last().at("id"@) == Json::Str(dec(highest_id(items) + 1))
                    &&& out.items.last().at("content"@) == Json::Str(content)
                    &&& input.at("status"@) matches Json::Str(s) ==> out.items.last().at("status"@)
                        == Json::Str(s)
                    &&& !(input.at("status"@) is Str) ==> out.items.last().at("status"@)
                        == Json::Str("pending"@)
                    &&& out.result matches Ok(r) && r.success && (r.metadata matches Some(m)
                        && m.at("op"@) == Json::Str("add"@) && m.at("item"@) == out.items.last()
                        && m.at("count"@) == Json::Num(items.len() as int + 1))
                },
                _ => out.items == items && out.result is Err,
            }
        }),
{
    broadcast use lemma_lookup_push;

    lemma_op_names();
    lemma_item_names();
    let out = todo_outcome(items, "add"@, input);
    if input.at("content"@) is Str {
        assert(items =~= out.items.drop_last());
    }
}

/// Updating changes the first item of the id that is given, and no other: it takes the
/// status and the content that are given and keeps what is not given. An id that no item
/// has is no success and changes nothing; without an id the call is an error.
pub proof fn updating_changes_one_item(items: Seq<Json>, input: Json, other: int)
    requires
        is_list(items),
        0 <= other < items.len(),
    ensures
        ({
            let out = todo_outcome(items, "update"@, input);
            &&& out.items.len() == items.len()
            &&& out.items[other].at("id"@) == items[other].at("id"@)
            &&& input.at("id"@) matches Json::Str(id) ==> {
                &&& items[other].at("id"@) != input.at("id"@) ==> out.items[other] == items[other]
                &&& items[other].at("id"@) == input.at("id"@) ==> {
                    &&& out.result matches Ok(r) && r.success
                    &&& input.at("status"@) is Str ==> out.items[other].at("status"@) == input.at(
                        "status"@,
                    )
                    &&& !(input.at("status"@) is Str) ==> out.items[other].at("status"@)
                        == items[other].at("status"@)
                    &&& input.at("content"@) is Str ==> out.items[other].at("content"@) == input.at(
                        "content"@,
                    )
                    &&& !(input.at("content"@) is Str) ==> out.items[other].at("content"@)
                        == items[other].at("content"@)
                }
                &&& (forall|k: int|
                    0 <= k < items.len() ==> (#[trigger] items[k]).at("id"@) != input.at("id"@))
                    ==> out.items == items && (out.result matches Ok(r) && !r.success)
            }
            &&& !(input.at("id"@) is Str) ==> out.items == items && out.result is Err
        }),
{
    lemma_op_names();
    let out = todo_outcome(items, "update"@, input);
    if let Json::Str(id) = input.at("id"@) {
        lemma_find_id(items, id);
        assert(forall|k: int|
            0 <= k < items.len() ==> has_id(#[trigger] items[k], id) == (items[k].at("id"@)
                == input.at("id"@)));
        match find_id(items, id) {
            Some(k) => {
                lemma_updated(items[k], input);
                lemma_update_keeps(items[k], input);
                if k != other {
                    assert(items[k].at("id"@).text() != items[other].at("id"@).text());
                }
            },
            None => {},
        }
    }
}

/// What is not given for an item stays.
proof fn lemma_update_keeps(item: Json, input: Json)
    requires
        item is Table,
    ensures
        input.at("status"@).text() is None ==> updated_item(item, input).at("status"@) == item.at(
            "status"@,
        ),
        input.at("content"@).text() is None ==> updated_item(item, input).at("content"@) == item.at(
            "content"@,
        ),
{
    lemma_item_names();
    let first = with_text(item, "status"@, input.at("status"@).text());
    match input.at("status"@).text() {
        Some(s) => {
            lemma_set_field(item.fields(), "status"@, Json::Str(s), "content"@);
        },
        None => {},
    }
    match input.at("content"@).text() {
        Some(s) => {
            lemma_set_field(first.fields(), "content"@, Json::Str(s), "status"@);
        },
        None => {},
    }
}

/// Removing takes away the items of the id that is given and keeps all others, in their
/// order: each item is kept behind those before it exactly where it has another id. It
/// is a success exactly where an item was taken away; without an id the call is an
/// error.
pub proof fn removing_keeps_the_others(items: Seq<Json>, item: Json, input: Json)
    ensures
        input.at("id"@) is Str ==> {
            let before = todo_outcome(items, "remove"@, input);
            let after = todo_outcome(items.push(item), "remove"@, input);
            &&& todo_outcome(seq![], "remove"@, input).items.len() == 0
            &&& item.at("id"@) == input.at("id"@) ==> after.items == before.items
            &&& item.at("id"@) != input.at("id"@) ==> after.items == before.items.push(item)
            &&& before.result matches Ok(r) && r.success == (before.items.len() != items.len())
                && (r.metadata matches Some(m) && m.at("count"@) == Json::Num(
                before.items.len() as int,
            ))
        },
        !(input.at("id"@) is Str) ==> todo_outcome(items, "remove"@, input).items == items
            && todo_outcome(items, "remove"@, input).result is Err,
{
    broadcast use lemma_lookup_push;

    lemma_op_names();
    lemma_item_names();
    assert(items.push(item).drop_last() =~= items);
}

/// Clearing takes away everything; listing, and an operation that there is none of,
/// takes away nothing; and such an operation is no success.
pub proof fn only_clearing_empties_the_list(items: Seq<Json>, op: Seq<char>, input: Json)
    ensures
        todo_outcome(items, "clear"@, input).items.len() == 0,
        todo_outcome(items, "list"@, input).items == items,
        todo_outcome(items, "list"@, input).result matches Ok(r) && r.success && (
        r.metadata matches Some(m) && m.at("count"@) == Json::Num(items.len() as int)),
        op != "add"@ && op != "update"@ && op != "remove"@ && op != "clear"@ && op != "list"@ ==> {
            let out = todo_outcome(items, op, input);
            out.items == items && (out.result matches Ok(r) && !r.success)
        },
{
    broadcast use lemma_lookup_push;

    lemma_op_names();
    lemma_item_names();
}

/// The list shows every item, a line each, in order: its status, its id and its content.
pub proof fn lists_show_every_item(items: Seq<Json>, input: Json, i: int)
    requires
        0 <= i < items.len(),
    ensures
        todo_outcome(items, "list"@, input).result matches Ok(r) && r.content == joined(
            item_lines(items),
            "\n"@,
        ),
        item_lines(items).len() == items.len(),
        items[i].at("status"@) matches Json::Str(status) ==> (items[i].at("id"@) matches Json::Str(
            id,
        ) ==> (items[i].at("content"@) matches Json::Str(content) ==> item_lines(items)[i] == "- ["@
            + status + "] #"@ + id + ": "@ + content)),
{
    lemma_op_names();
}

/// Without an operation the list is asked for.
pub proof fn lists_are_asked_for_by_default(input: Json)
    ensures
        input.at("op"@) matches Json::Str(op) ==> asked_op(input) == op,
        !(input.at("op"@) is Str) ==> asked_op(input) == "list"@,
{
}

/// What is done for one session changes no list of another.
pub proof fn sessions_have_their_own_lists(
    before: Map<Seq<char>, Seq<Json>>,
    after: Map<Seq<char>, Seq<Json>>,
    session: Seq<char>,
    other: Seq<char>,
    items: Seq<Json>,
)
    requires
        lists_after(before, after, session, items),
    ensures
        list_of(after, session) == items,
        other != session ==> list_of(after, other) == list_of(before, other),
        !before.contains_key(other) ==> list_of(before, other).len() == 0,
        before.contains_key(other) ==> list_of(before, other) == before[other],
{
}

/// What was done is told with the id of the item, and what could not be done with the
/// reason.
pub proof fn todos_are_told(items: Seq<Json>, id: Seq<char>, op: Seq<char>, input: Json)
    requires
        input.at("id"@) == Json::Str(id),
    ensures
        input.at("content"@) matches Json::Str(content) ==> (todo_outcome(
            items,
            "add"@,
            input,
        ).result matches Ok(r) && r.content == "Added todo #"@ + dec(highest_id(items) + 1) + ": "@
            + content + " ["@ + (if input.at("status"@) is Str {
            input.at("status"@).text_or_empty()
        } else {
            "pending"@
        }) + "]"@),
        find_id(items, id) is None ==> (todo_outcome(items, "update"@, input).result matches Ok(r)
            && r.content == "Todo #"@ + id + " not found"@),
        find_id(items, id) matches Some(k) ==> ({
            let out = todo_outcome(items, "update"@, input);
            out.result matches Ok(r) && r.content == "Todo #"@ + out.items[k].at(
                "id"@,
            ).text_or_empty() + ": "@ + out.items[k].at("content"@).text_or_empty() + " ["@
                + out.items[k].at("status"@).text_or_empty() + "]"@
        }),
        todo_outcome(items, "remove"@, input).result matches Ok(r) && r.content == (if r.success {
            "Removed todo #"@ + id
        } else {
            "Todo #"@ + id + " not found"@
        }),
        op != "add"@ && op != "update"@ && op != "remove"@ && op != "clear"@ && op != "list"@ ==> (
        todo_outcome(items, op, input).result matches Ok(r) && r.content == "Unknown operation '"@
            + op + "'. Valid ops: list, add, update, remove, clear"@),
{
    lemma_op_names();
    lemma_item_names();
    lemma_find_id(items, id);
}

/// What is missing is named.
pub proof fn missing_todo_parameters_are_named(items: Seq<Json>, input: Json)
    ensures
        !(input.at("content"@) is Str) ==> todo_outcome(items, "add"@, input).result == Err::<
            ResultView,
            Seq<char>,
        >("Missing 'content' parameter for add"@),
        !(input.at("id"@) is Str) ==> todo_outcome(items, "update"@, input).result == Err::<
            ResultView,
            Seq<char>,
        >("Missing 'id' parameter for update"@) && todo_outcome(items, "remove"@, input).result
            == Err::<ResultView, Seq<char>>("Missing 'id' parameter for remove"@),
{
    lemma_op_names();
}

/// What comes back is what is wanted: its success, its text and its facts, or else the
/// reason why there is none.
pub proof fn results_are_as_wanted(
    r: Result<ToolResult, ToolError>,
    want: Result<ResultView, Seq<char>>,
)
    requires
        is_result(r, want),
    ensures
        want matches Ok(v) ==> (r matches Ok(result) && result.success == v.success
            && result.content@ == v.content && result@.metadata == v.metadata),
        want matches Err(message) ==> (r matches Err(e) && e.message@ == message),
{
}

} // verus!
