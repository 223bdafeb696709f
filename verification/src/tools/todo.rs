//! `todo`: session checkpointing.
//!
//! A list of todos is kept per session; the caller persists it (one JSON
//! file per session, see [`TodoStore`]). [`handle_todo`] applies one of
//! `list | add | update | remove | clear` and keeps the list's invariant:
//! at most one item is `in_progress`.

use vstd::prelude::*;
use crate::ds::design_system::path_join;
use crate::json::{get, get_str, Json};
use crate::text::{dec, push_dec, push_str, str_eq, to_owned};

verus! {

#[derive(Debug, Clone, Copy, PartialEq, Eq, Structural)]
pub enum TodoStatus {
    Pending,
    InProgress,
    Completed,
}

#[derive(Debug)]
pub struct TodoItem {
    pub id: String,
    pub content: String,
    pub status: TodoStatus,
}

#[derive(Debug)]
pub struct TodoList {
    pub items: Vec<TodoItem>,
}

/// Where the todo lists of a project are kept.
#[derive(Debug)]
pub struct TodoStore {
    pub root: String,
}

/// A todo as texts.
pub type ItemView = (Seq<char>, Seq<char>, TodoStatus);

/// One decoded todo operation.
#[derive(Debug)]
#[allow(inconsistent_fields)]
pub enum TodoCommand {
    List,
    Clear,
    Add { id: String, content: String, status: TodoStatus },
    Update { id: String, content: Option<String>, status: Option<TodoStatus> },
    Remove { id: String },
}

/// A todo operation with texts as characters.
#[allow(inconsistent_fields)]
pub enum CommandView {
    List,
    Clear,
    Add { id: Seq<char>, content: Seq<char>, status: TodoStatus },
    Update { id: Seq<char>, content: Option<Seq<char>>, status: Option<TodoStatus> },
    Remove { id: Seq<char> },
}

impl View for TodoCommand {
    type V = CommandView;

    open spec fn view(&self) -> CommandView {
        match *self {
            TodoCommand::List => CommandView::List,
            TodoCommand::Clear => CommandView::Clear,
            TodoCommand::Add { id, content, status } => CommandView::Add {
                id: id@,
                content: content@,
                status,
            },
            TodoCommand::Update { id, content, status } => CommandView::Update {
                id: id@,
                content: match content {
                    Some(c) => Some(c@),
                    None => None,
                },
                status,
            },
            TodoCommand::Remove { id } => CommandView::Remove { id: id@ },
        }
    }
}

/// The JSON text of the `todo` tool schema.
pub const TODO_SCHEMA: &'static str = r#"{
  "type": "function",
  "function": {
    "name": "todo",
    "description": "Persistent session todos. Operations: list | add | update | remove | clear. At most one item may be `in_progress` at a time.",
    "parameters": {
      "type": "object",
      "required": ["op"],
      "properties": {
        "op":      {"type": "string", "enum": ["list","add","update","remove","clear"]},
        "id":      {"type": "string"},
        "content": {"type": "string"},
        "status":  {"type": "string", "enum": ["pending","in_progress","completed"]}
      },
      "additionalProperties": false
    }
  }
}"#;

/// The `todo` tool schema, as JSON text.
pub fn todo_schema() -> (r: String)
    ensures
        r@ == TODO_SCHEMA@,
{
    to_owned(TODO_SCHEMA)
}

// ── specification ──────────────────────────────────────────────────────────

pub open spec fn item_view(i: TodoItem) -> ItemView {
    (i.id@, i.content@, i.status)
}

pub open spec fn items_view(items: Seq<TodoItem>) -> Seq<ItemView> {
    items.map_values(|i: TodoItem| item_view(i))
}

/// How many items are in progress.
pub open spec fn in_progress_count(items: Seq<ItemView>) -> nat
    decreases items.len(),
{
    if items.len() == 0 {
        0
    } else {
        in_progress_count(items.drop_last()) + if items.last().2 == TodoStatus::InProgress {
            1nat
        } else {
            0nat
        }
    }
}

/// The list's invariant: at most one item is in progress.
pub open spec fn consistent(items: Seq<ItemView>) -> bool {
    in_progress_count(items) <= 1
}

/// A status named by its wire text.
pub open spec fn status_named(v: Option<Json>) -> Option<TodoStatus> {
    match v {
        Some(Json::Str(s)) => if s@ == "pending"@ {
            Some(TodoStatus::Pending)
        } else if s@ == "in_progress"@ {
            Some(TodoStatus::InProgress)
        } else if s@ == "completed"@ {
            Some(TodoStatus::Completed)
        } else {
            None
        },
        _ => None,
    }
}

/// The operation that tool arguments ask for, or why they ask for none.
pub open spec fn command_of(args: Json) -> Result<CommandView, Seq<char>> {
    match get_str(args, "op"@) {
        None => Err("missing `op`"@),
        Some(op) => if op == "list"@ {
            Ok(CommandView::List)
        } else if op == "clear"@ {
            Ok(CommandView::Clear)
        } else if op == "add"@ {
            match get_str(args, "id"@) {
                None => Err("add requires `id`"@),
                Some(id) => match get_str(args, "content"@) {
                    None => Err("add requires `content`"@),
                    Some(content) => Ok(
                        CommandView::Add {
                            id,
                            content,
                            status: match status_named(get(args, "status"@)) {
                                Some(s) => s,
                                None => TodoStatus::Pending,
                            },
                        },
                    ),
                },
            }
        } else if op == "update"@ {
            match get_str(args, "id"@) {
                None => Err("update requires `id`"@),
                Some(id) => Ok(
                    CommandView::Update {
                        id,
                        content: get_str(args, "content"@),
                        status: status_named(get(args, "status"@)),
                    },
                ),
            }
        } else if op == "remove"@ {
            match get_str(args, "id"@) {
                None => Err("remove requires `id`"@),
                Some(id) => Ok(CommandView::Remove { id }),
            }
        } else {
            Err("unknown op `"@ + op + "`"@)
        }
    }
}

/// Some item has this id.
pub open spec fn has_id(items: Seq<ItemView>, id: Seq<char>) -> bool {
    exists|i: int| 0 <= i < items.len() && (#[trigger] items[i]).0 == id
}

/// The position of the first item with this id.
pub open spec fn first_with_id(items: Seq<ItemView>, id: Seq<char>) -> int {
    choose|i: int|
        0 <= i < items.len() && items[i].0 == id && forall|j: int| 0 <= j < i ==> items[j].0 != id
}

/// An item does not have this id.
pub open spec fn keeps(id: Seq<char>) -> spec_fn(ItemView) -> bool {
    |it: ItemView| it.0 != id
}

/// The items without those that have this id.
pub open spec fn without_id(items: Seq<ItemView>, id: Seq<char>) -> Seq<ItemView> {
    items.filter(keeps(id))
}

/// An operation applied to a list, before the invariant is checked.
pub open spec fn applied(items: Seq<ItemView>, c: CommandView) -> Result<(Seq<ItemView>, Seq<char>), Seq<char>> {
    match c {
        CommandView::List => Ok((items, dec(items.len()) + " item(s)"@)),
        CommandView::Clear => Ok((seq![], "cleared "@ + dec(items.len()) + " item(s)"@)),
        CommandView::Add { id, content, status } => if has_id(items, id) {
            Err("duplicate id `"@ + id + "`"@)
        } else {
            Ok((items.push((id, content, status)), "added"@))
        },
        CommandView::Update { id, content, status } => if !has_id(items, id) {
            Err("unknown id `"@ + id + "`"@)
        } else {
            let k = first_with_id(items, id);
            let old = items[k];
            let new = (
                old.0,
                match content {
                    Some(t) => t,
                    None => old.1,
                },
                match status {
                    Some(s) => s,
                    None => old.2,
                },
            );
            Ok((items.update(k, new), "updated"@))
        },
        CommandView::Remove { id } => if !has_id(items, id) {
            Err("unknown id `"@ + id + "`"@)
        } else {
            Ok((without_id(items, id), "removed"@))
        },
    }
}

/// An operation applied to a list: the result must keep the invariant.
pub open spec fn apply_spec(items: Seq<ItemView>, c: CommandView) -> Result<(Seq<ItemView>, Seq<char>), Seq<char>> {
    match applied(items, c) {
        Err(e) => Err(e),
        Ok((next, msg)) => if consistent(next) {
            Ok((next, msg))
        } else {
            Err("invariant violated: more than one todo is `in_progress`"@)
        },
    }
}

/// What `handle_todo` answers for a list and tool arguments.
pub open spec fn todo_outcome(items: Seq<ItemView>, args: Json) -> Result<(Seq<ItemView>, Seq<char>), Seq<char>> {
    match command_of(args) {
        Err(e) => Err(e),
        Ok(c) => apply_spec(items, c),
    }
}

/// The file a session's todos are kept in.
pub open spec fn todo_path(root: Seq<char>, session: Seq<char>) -> Seq<char> {
    path_join(root, session + ".todo.json"@)
}


// ── implementation ─────────────────────────────────────────────────────────

fn copy_item(i: &TodoItem) -> (r: TodoItem)
    ensures
        item_view(r) == item_view(*i),
{
    TodoItem { id: i.id.clone(), content: i.content.clone(), status: i.status }
}

fn parse_status(v: Option<&Json>) -> (r: Option<TodoStatus>)
    ensures
        r == status_named(
            match v {
                Some(j) => Some(*j),
                None => None,
            },
        ),
{
    match v {
        Some(Json::Str(s)) => {
            if str_eq(s.as_str(), "pending") {
                Some(TodoStatus::Pending)
            } else if str_eq(s.as_str(), "in_progress") {
                Some(TodoStatus::InProgress)
            } else if str_eq(s.as_str(), "completed") {
                Some(TodoStatus::Completed)
            } else {
                None
            }
        },
        _ => None,
    }
}

fn required(args: &Json, key: &str, why: &str) -> (r: Result<String, String>)
    ensures
        match get_str(*args, key@) {
            Some(v) => r matches Ok(s) && s@ == v,
            None => r matches Err(e) && e@ == why@,
        },
{
    match args.get_str(key) {
        Some(v) => Ok(to_owned(v.as_str())),
        None => Err(to_owned(why)),
    }
}

/// Decodes the tool arguments into one operation.
pub fn parse_command(args: &Json) -> (r: Result<TodoCommand, String>)
    ensures
        match command_of(*args) {
            Ok(c) => r matches Ok(cmd) && cmd@ == c,
            Err(e) => r matches Err(m) && m@ == e,
        },
{
    let op = match args.get_str("op") {
        Some(op) => op,
        None => {
            return Err(to_owned("missing `op`"));
        },
    };
    let o = op.as_str();
    if str_eq(o, "list") {
        Ok(TodoCommand::List)
    } else if str_eq(o, "clear") {
        Ok(TodoCommand::Clear)
    } else if str_eq(o, "add") {
        let id = required(args, "id", "add requires `id`")?;
        let content = required(args, "content", "add requires `content`")?;
        let status = match parse_status(args.get("status")) {
            Some(s) => s,
            None => TodoStatus::Pending,
        };
        Ok(TodoCommand::Add { id, content, status })
    } else if str_eq(o, "update") {
        let id = required(args, "id", "update requires `id`")?;
        let content = match args.get_str("content") {
            Some(c) => Some(to_owned(c.as_str())),
            None => None,
        };
        let status = parse_status(args.get("status"));
        Ok(TodoCommand::Update { id, content, status })
    } else if str_eq(o, "remove") {
        let id = required(args, "id", "remove requires `id`")?;
        Ok(TodoCommand::Remove { id })
    } else {
        let mut m = to_owned("unknown op `");
        push_str(&mut m, o);
        push_str(&mut m, "`");
        Err(m)
    }
}

fn find_id(items: &Vec<TodoItem>, id: &str) -> (r: Option<usize>)
    ensures
        match r {
            Some(k) => k < items@.len() && items_view(items@)[k as int].0 == id@ && forall|j: int|
                0 <= j < k ==> items_view(items@)[j].0 != id@,
            None => !has_id(items_view(items@), id@),
        },
{
    let ghost v = items_view(items@);
    let mut i: usize = 0;
    while i < items.len()
        invariant
            i <= items@.len(),
            v == items_view(items@),
            forall|j: int| 0 <= j < i ==> v[j].0 != id@,
        decreases items.len() - i,
    {
        assert(v[i as int] == item_view(items@[i as int]));
        if str_eq(items[i].id.as_str(), id) {
            return Some(i);
        }
        i = i + 1;
    }
    assert forall|j: int| 0 <= j < v.len() implies #[trigger] v[j].0 != id@ by {}
    None
}

fn count_in_progress(items: &Vec<TodoItem>) -> (n: usize)
    ensures
        n == in_progress_count(items_view(items@)),
{
    let ghost v = items_view(items@);
    let mut n: usize = 0;
    let mut i: usize = 0;
    while i < items.len()
        invariant
            i <= items@.len(),
            v == items_view(items@),
            n == in_progress_count(v.subrange(0, i as int)),
            n <= i,
        decreases items.len() - i,
    {
        assert(v.subrange(0, i + 1).drop_last() =~= v.subrange(0, i as int));
        assert(v[i as int] == item_view(items@[i as int]));
        if items[i].status == TodoStatus::InProgress {
            n = n + 1;
        }
        i = i + 1;
    }
    assert(v.subrange(0, v.len() as int) =~= v);
    n
}

impl TodoList {
    /// The list keeps its invariant: at most one item is in progress.
    pub fn is_consistent(&self) -> (b: bool)
        ensures
            b == consistent(items_view(self.items@)),
    {
        count_in_progress(&self.items) <= 1
    }
}

impl Default for TodoList {
    fn default() -> (r: TodoList)
        ensures
            r.items@.len() == 0,
    {
        TodoList { items: Vec::new() }
    }
}

impl TodoStore {
    pub fn new(root: String) -> (s: TodoStore)
        ensures
            s.root == root,
    {
        TodoStore { root }
    }

    /// The file a session's todos are kept in: `<root>/<session>.todo.json`.
    pub fn path_for(&self, session: &str) -> (p: String)
        ensures
            p@ == todo_path(self.root@, session@),
    {
        let mut name = to_owned(session);
        push_str(&mut name, ".todo.json");
        crate::ds::design_system::join_path(self.root.as_str(), name.as_str())
    }
}

fn unknown_id(id: &str) -> (e: String)
    ensures
        e@ == "unknown id `"@ + id@ + "`"@,
{
    let mut m = to_owned("unknown id `");
    push_str(&mut m, id);
    push_str(&mut m, "`");
    m
}

fn count_message(prefix: &str, n: usize) -> (m: String)
    ensures
        m@ == prefix@ + dec(n as nat) + " item(s)"@,
{
    let mut m = to_owned(prefix);
    push_dec(&mut m, n as u64);
    push_str(&mut m, " item(s)");
    m
}

/// Applies one operation to a list; the result must keep the invariant.
pub fn apply_command(list: TodoList, cmd: TodoCommand) -> (r: Result<(TodoList, String), String>)
    ensures
        match apply_spec(items_view(list.items@), cmd@) {
            Ok((items, msg)) => r matches Ok((l, m)) && items_view(l.items@) == items && m@ == msg,
            Err(e) => r matches Err(m) && m@ == e,
        },
{
    let ghost before = items_view(list.items@);
    let mut list = list;
    let msg = match cmd {
        TodoCommand::List => {
            let m = count_message("", list.items.len());
            proof {
                reveal_strlit("");
            }
            assert(m@ =~= dec(before.len()) + " item(s)"@);
            m
        },
        TodoCommand::Clear => {
            let n = list.items.len();
            list.items = Vec::new();
            assert(items_view(list.items@) =~= Seq::<ItemView>::empty());
            count_message("cleared ", n)
        },
        TodoCommand::Add { id, content, status } => {
            if find_id(&list.items, id.as_str()).is_some() {
                let mut m = to_owned("duplicate id `");
                push_str(&mut m, id.as_str());
                push_str(&mut m, "`");
                return Err(m);
            }
            let ghost want = before.push((id@, content@, status));
            list.items.push(TodoItem { id, content, status });
            assert(items_view(list.items@) =~= want);
            to_owned("added")
        },
        TodoCommand::Update { id, content, status } => {
            let k = match find_id(&list.items, id.as_str()) {
                Some(k) => k,
                None => {
                    return Err(unknown_id(id.as_str()));
                },
            };
            proof {
                let j = first_with_id(before, id@);
                assert(0 <= j < before.len() && before[j].0 == id@ && forall|i: int|
                    0 <= i < j ==> before[i].0 != id@) by {
                    assert(before[k as int].0 == id@);
                }
                assert(j == k as int) by {
                    if j < k {
                        assert(before[j].0 != id@);
                    } else if j > k {
                        assert(before[k as int].0 != id@);
                    }
                }
            }
            let old = copy_item(&list.items[k]);
            let new_content = match content {
                Some(c) => c,
                None => old.content,
            };
            let new_status = match status {
                Some(s) => s,
                None => old.status,
            };
            let item = TodoItem { id: old.id, content: new_content, status: new_status };
            let ghost new_view = item_view(item);
            list.items.set(k, item);
            assert(items_view(list.items@) =~= before.update(k as int, new_view));
            to_owned("updated")
        },
        TodoCommand::Remove { id } => {
            let ghost pred = keeps(id@);
            let mut kept: Vec<TodoItem> = Vec::new();
            let mut found = false;
            let mut i: usize = 0;
            let old_items = list.items;
            while i < old_items.len()
                invariant
                    i <= old_items@.len(),
                    before == items_view(old_items@),
                    pred == keeps(id@),
                    items_view(kept@) == before.subrange(0, i as int).filter(pred),
                    found == has_id(before.subrange(0, i as int), id@),
                decreases old_items.len() - i,
            {
                let ghost pre = before.subrange(0, i as int);
                assert(before.subrange(0, i + 1) =~= pre.push(before[i as int]));
                proof {
                    pre.lemma_filter_push(before[i as int], pred);
                }
                assert(before[i as int] == item_view(old_items@[i as int]));
                if str_eq(old_items[i].id.as_str(), id.as_str()) {
                    found = true;
                    assert(before.subrange(0, i + 1)[i as int].0 == id@);
                    assert(!pred(before[i as int]));
                    assert(items_view(kept@) == before.subrange(0, i + 1).filter(pred));
                } else {
                    let ghost k0 = kept@;
                    kept.push(copy_item(&old_items[i]));
                    assert(items_view(kept@) =~= items_view(k0).push(before[i as int]));
                    assert(pred(before[i as int]));
                    assert(items_view(kept@) == before.subrange(0, i + 1).filter(pred));
                    proof {
                        if has_id(before.subrange(0, i + 1), id@) {
                            let w = choose|w: int|
                                0 <= w < before.subrange(0, i + 1).len() && (
                                #[trigger] before.subrange(0, i + 1)[w]).0 == id@;
                            assert(pre[w].0 == id@);
                        }
                    }
                }
                proof {
                    if found && !has_id(before.subrange(0, i as int), id@) {
                        assert(before.subrange(0, i + 1)[i as int].0 == id@);
                    }
                    if has_id(pre, id@) {
                        let w = choose|w: int| 0 <= w < pre.len() && (#[trigger] pre[w]).0 == id@;
                        assert(before.subrange(0, i + 1)[w].0 == id@);
                    }
                }
                i = i + 1;
            }
            assert(before.subrange(0, before.len() as int) =~= before);
            if !found {
                return Err(unknown_id(id.as_str()));
            }
            list.items = kept;
            to_owned("removed")
        },
    };
    if count_in_progress(&list.items) > 1 {
        return Err(to_owned("invariant violated: more than one todo is `in_progress`"));
    }
    Ok((list, msg))
}

/// Applies the operation that `args` names to `list`, and returns the new
/// list with a short message. Persisting the list is the caller's part.
pub fn handle_todo(list: TodoList, args: &Json) -> (r: Result<(TodoList, String), String>)
    ensures
        match todo_outcome(items_view(list.items@), *args) {
            Ok((items, msg)) => r matches Ok((l, m)) && items_view(l.items@) == items && m@ == msg,
            Err(e) => r matches Err(m) && m@ == e,
        },
        r matches Ok((l, _)) ==> consistent(items_view(l.items@)),
{
    let cmd = parse_command(args)?;
    apply_command(list, cmd)
}


// ── laws ───────────────────────────────────────────────────────────────────

proof fn lemma_without_absent_id(items: Seq<ItemView>, id: Seq<char>)
    requires
        !has_id(items, id),
    ensures
        without_id(items, id) == items,
    decreases items.len(),
{
    if items.len() == 0 {
        items.lemma_filter_len(keeps(id));
        assert(without_id(items, id) =~= items);
    } else {
        let init = items.drop_last();
        assert(!has_id(init, id)) by {
            if has_id(init, id) {
                let w = choose|w: int| 0 <= w < init.len() && (#[trigger] init[w]).0 == id;
                assert(items[w].0 == id);
            }
        }
        lemma_without_absent_id(init, id);
        assert(items =~= init.push(items.last()));
        assert(items[items.len() - 1].0 != id);
        init.lemma_filter_push(items.last(), keeps(id));
    }
}

/// Whatever a todo operation does, a list it hands back has at most one
/// item in progress.
pub proof fn law_results_keep_the_invariant(items: Seq<ItemView>, c: CommandView)
    ensures
        apply_spec(items, c) matches Ok((next, _)) ==> consistent(next),
{
}

/// Adding a todo and then removing it by its id gives back the list as it
/// was.
pub proof fn law_add_then_remove_restores(
    items: Seq<ItemView>,
    id: Seq<char>,
    content: Seq<char>,
    status: TodoStatus,
)
    requires
        apply_spec(items, CommandView::Add { id, content, status }) is Ok,
    ensures
        apply_spec(
            apply_spec(items, CommandView::Add { id, content, status })->Ok_0.0,
            CommandView::Remove { id },
        ) == Ok::<(Seq<ItemView>, Seq<char>), Seq<char>>((items, "removed"@)),
{
    let added = items.push((id, content, status));
    assert(!has_id(items, id));
    assert(added.drop_last() =~= items);
    assert(added[added.len() - 1].0 == id);
    lemma_without_absent_id(items, id);
    items.lemma_filter_push((id, content, status), keeps(id));
    assert(in_progress_count(items) <= in_progress_count(added));
}

/// `clear` always succeeds and leaves no item.
pub proof fn law_clear_empties(items: Seq<ItemView>)
    ensures
        apply_spec(items, CommandView::Clear) matches Ok((next, _)) && next.len() == 0,
{
}

/// `list` leaves a consistent list as it is.
pub proof fn law_list_changes_nothing(items: Seq<ItemView>)
    requires
        consistent(items),
    ensures
        apply_spec(items, CommandView::List) matches Ok((next, _)) && next == items,
{
}

/// `update` keeps every item's id and the number of items.
pub proof fn law_update_keeps_ids(
    items: Seq<ItemView>,
    id: Seq<char>,
    content: Option<Seq<char>>,
    status: Option<TodoStatus>,
)
    ensures
        apply_spec(items, CommandView::Update { id, content, status }) matches Ok((next, _)) ==> (
        next.len() == items.len() && forall|i: int| 0 <= i < items.len() ==> next[i].0
            == items[i].0),
{
    if has_id(items, id) {
        let k = first_with_id(items, id);
        let w = choose|w: int| 0 <= w < items.len() && (#[trigger] items[w]).0 == id;
        assert(exists|i: int|
            0 <= i < items.len() && items[i].0 == id && forall|j: int|
                0 <= j < i ==> items[j].0 != id) by {
            lemma_first_with_id_exists(items, id, w);
        }
    }
}

/// No two items share an id.
pub open spec fn ids_distinct(items: Seq<ItemView>) -> bool {
    forall|i: int, j: int| 0 <= i < j < items.len() ==> (#[trigger] items[i]).0 != (#[trigger] items[j]).0
}

proof fn lemma_filter_keeps_distinct(items: Seq<ItemView>, id: Seq<char>)
    requires
        ids_distinct(items),
    ensures
        ids_distinct(without_id(items, id)),
    decreases items.len(),
{
    if items.len() > 0 {
        let init = items.drop_last();
        let l = items.last();
        assert(ids_distinct(init)) by {
            assert forall|i: int, j: int| 0 <= i < j < init.len() implies (#[trigger] init[i]).0 != (#[trigger] init[j]).0 by {
                assert(init[i] == items[i] && init[j] == items[j]);
            }
        }
        lemma_filter_keeps_distinct(init, id);
        assert(items =~= init.push(l));
        init.lemma_filter_push(l, keeps(id));
        let f = without_id(init, id);
        if l.0 != id {
            let r = f.push(l);
            assert forall|i: int, j: int| 0 <= i < j < r.len() implies (#[trigger] r[i]).0 != (#[trigger] r[j]).0 by {
                if j == r.len() - 1 {
                    assert(r[j] == l);
                    assert(r[i] == f[i]);
                    if f[i].0 == l.0 {
                        lemma_filtered_from(init, id, i);
                        let m = choose|m: int| 0 <= m < init.len() && init[m] == f[i];
                        assert(items[m] == init[m]);
                        assert(items[items.len() - 1] == l);
                    }
                } else {
                    assert(r[i] == f[i] && r[j] == f[j]);
                }
            }
        }
    }
}

proof fn lemma_filtered_from(items: Seq<ItemView>, id: Seq<char>, i: int)
    requires
        0 <= i < without_id(items, id).len(),
    ensures
        exists|m: int| 0 <= m < items.len() && items[m] == without_id(items, id)[i],
    decreases items.len(),
{
    if items.len() > 0 {
        let init = items.drop_last();
        let l = items.last();
        assert(items =~= init.push(l));
        init.lemma_filter_push(l, keeps(id));
        let f = without_id(init, id);
        if i < f.len() {
            lemma_filtered_from(init, id, i);
            let m = choose|m: int| 0 <= m < init.len() && init[m] == f[i];
            assert(items[m] == init[m]);
            if l.0 != id {
                assert(without_id(items, id)[i] == f[i]);
            }
        } else {
            assert(items[items.len() - 1] == l);
        }
    }
}

/// A list whose ids are distinct keeps them distinct through every
/// operation that succeeds: `add` refuses an id that is taken, `update`
/// keeps every id, `remove` only drops items.
pub proof fn law_ids_stay_distinct(items: Seq<ItemView>, c: CommandView)
    requires
        ids_distinct(items),
    ensures
        apply_spec(items, c) matches Ok((next, _)) ==> ids_distinct(next),
{
    match c {
        CommandView::Add { id, content, status } => {
            if !has_id(items, id) {
                let next = items.push((id, content, status));
                assert forall|i: int, j: int| 0 <= i < j < next.len() implies (#[trigger] next[i]).0 != (#[trigger] next[j]).0 by {
                    if j == next.len() - 1 {
                        assert(next[i] == items[i]);
                    } else {
                        assert(next[i] == items[i] && next[j] == items[j]);
                    }
                }
            }
        },
        CommandView::Update { id, content, status } => {
            law_update_keeps_ids(items, id, content, status);
            if apply_spec(items, c) is Ok {
                let next = apply_spec(items, c)->Ok_0.0;
                assert forall|i: int, j: int| 0 <= i < j < next.len() implies (#[trigger] next[i]).0 != (#[trigger] next[j]).0 by {
                    assert(next[i].0 == items[i].0 && next[j].0 == items[j].0);
                }
            }
        },
        CommandView::Remove { id } => {
            lemma_filter_keeps_distinct(items, id);
        },
        _ => {},
    }
}

proof fn lemma_first_with_id_exists(items: Seq<ItemView>, id: Seq<char>, w: int)
    requires
        0 <= w < items.len(),
        items[w].0 == id,
    ensures
        exists|i: int|
            0 <= i < items.len() && items[i].0 == id && forall|j: int|
                0 <= j < i ==> items[j].0 != id,
    decreases w,
{
    if exists|j: int| 0 <= j < w && items[j].0 == id {
        let j = choose|j: int| 0 <= j < w && items[j].0 == id;
        lemma_first_with_id_exists(items, id, j);
    }
}

/// A successful `update` changes one item, the first with the id: it takes
/// the given content and the given status, keeps what was not given, and
/// every other item stays as it was.
pub proof fn law_update_sets_given_fields(
    items: Seq<ItemView>,
    id: Seq<char>,
    content: Option<Seq<char>>,
    status: Option<TodoStatus>,
)
    ensures
        apply_spec(items, CommandView::Update { id, content, status }) matches Ok((next, msg)) ==> {
            &&& msg == "updated"@
            &&& next.len() == items.len()
            &&& exists|k: int|
                0 <= k < next.len() && #[trigger] next[k].0 == id && (forall|j: int| 0 <= j < k ==> items[j].0 != id)
                    && next[k].1 == (match content {
                    Some(t) => t,
                    None => items[k].1,
                }) && next[k].2 == (match status {
                    Some(st) => st,
                    None => items[k].2,
                }) && forall|i: int| 0 <= i < next.len() && i != k ==> next[i] == items[i]
        },
{
    if has_id(items, id) {
        let w = choose|w: int| 0 <= w < items.len() && (#[trigger] items[w]).0 == id;
        lemma_first_with_id_exists(items, id, w);
        let k = first_with_id(items, id);
        if let Ok((next, _)) = apply_spec(items, CommandView::Update { id, content, status }) {
            assert(next[k].0 == id);
        }
    }
}

/// A successful `add` puts the new item, with the given id, content and
/// status, after the items that were there, which stay as they were.
pub proof fn law_add_appends(items: Seq<ItemView>, id: Seq<char>, content: Seq<char>, status: TodoStatus)
    ensures
        apply_spec(items, CommandView::Add { id, content, status }) matches Ok((next, msg)) ==> {
            &&& msg == "added"@
            &&& !has_id(items, id)
            &&& next.len() == items.len() + 1
            &&& next[items.len() as int] == (id, content, status)
            &&& forall|i: int| 0 <= i < items.len() ==> next[i] == items[i]
        },
{
}

/// A successful `remove` leaves no item with the id, and keeps every item
/// with another id.
pub proof fn law_remove_drops_the_id(items: Seq<ItemView>, id: Seq<char>)
    ensures
        apply_spec(items, CommandView::Remove { id }) matches Ok((next, msg)) ==> {
            &&& msg == "removed"@
            &&& has_id(items, id)
            &&& forall|i: int| 0 <= i < next.len() ==> (#[trigger] next[i]).0 != id
            &&& forall|i: int| 0 <= i < items.len() && (#[trigger] items[i]).0 != id ==> next.contains(items[i])
        },
{
    broadcast use vstd::seq_lib::group_filter_ensures;
}

} // verus!
