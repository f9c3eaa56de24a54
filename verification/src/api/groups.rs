//! Groups: how the rows that the store returns, one for each member of each
//! group, are gathered into groups.

use crate::wire::{decimal, decimal_string};
use vstd::prelude::*;
use vstd::string::*;

verus! {

/// One row of the store's answer: a group, and one of its members.
#[derive(Debug, PartialEq, Eq)]
pub struct QueryResult {
    pub id: u64,
    pub name: String,
    pub last_time: u64,
    pub username: String,
}

/// What a [`QueryResult`] holds, as mathematical values.
pub struct Row {
    pub id: u64,
    pub name: Seq<char>,
    pub last_time: u64,
    pub username: Seq<char>,
}

impl View for QueryResult {
    type V = Row;

    open spec fn view(&self) -> Row {
        Row { id: self.id, name: self.name@, last_time: self.last_time, username: self.username@ }
    }
}

impl DeepView for QueryResult {
    type V = Row;

    open spec fn deep_view(&self) -> Row {
        self@
    }
}

/// A group with its members. Nobody is a member twice.
#[derive(Debug, PartialEq, Eq)]
pub struct Group {
    pub id: u64,
    pub name: String,
    pub people: Vec<String>,
    pub last_time: u64,
}

/// What a [`Group`] holds, as mathematical values.
pub struct GroupView {
    pub id: u64,
    pub name: Seq<char>,
    pub people: Seq<Seq<char>>,
    pub last_time: u64,
}

impl View for Group {
    type V = GroupView;

    open spec fn view(&self) -> GroupView {
        GroupView {
            id: self.id,
            name: self.name@,
            people: self.people.deep_view(),
            last_time: self.last_time,
        }
    }
}

impl DeepView for Group {
    type V = GroupView;

    open spec fn deep_view(&self) -> GroupView {
        self@
    }
}

// ---------------------------------------------------------------------------
// What gathering means
// ---------------------------------------------------------------------------

/// Where in `groups` the group `id` stands: the first place that holds it.
pub open spec fn find_group(groups: Seq<GroupView>, id: u64) -> Option<int>
    decreases groups.len(),
{
    if groups.len() == 0 {
        None
    } else {
        match find_group(groups.drop_last(), id) {
            Some(at) => Some(at),
            None => if groups.last().id == id {
                Some(groups.len() - 1)
            } else {
                None
            },
        }
    }
}

/// `people` with `name` among them: added at the end, unless already there.
pub open spec fn joined(people: Seq<Seq<char>>, name: Seq<char>) -> Seq<Seq<char>> {
    if people.contains(name) {
        people
    } else {
        people.push(name)
    }
}

/// `groups` with one more row taken in. The member of the row joins its
/// group where that is there already; otherwise the row opens the group,
/// which gets its name and time from this row and stands last.
pub open spec fn with_row(groups: Seq<GroupView>, row: Row) -> Seq<GroupView> {
    match find_group(groups, row.id) {
        Some(at) => groups.update(
            at,
            GroupView { people: joined(groups[at].people, row.username), ..groups[at] },
        ),
        None => groups.push(
            GroupView {
                id: row.id,
                name: row.name,
                people: seq![row.username],
                last_time: row.last_time,
            },
        ),
    }
}

/// The groups that `rows` make, the rows taken in one after the other.
pub open spec fn grouped(rows: Seq<Row>) -> Seq<GroupView>
    decreases rows.len(),
{
    if rows.len() == 0 {
        Seq::<GroupView>::empty()
    } else {
        with_row(grouped(rows.drop_last()), rows.last())
    }
}

/// What [`find_group`] finds is a place of `groups` that holds `id`, and no
/// place before it does; where it finds nothing, no place holds `id`.
pub proof fn lemma_find_group(groups: Seq<GroupView>, id: u64)
    ensures
        (match find_group(groups, id) {
            Some(at) => 0 <= at < groups.len() && groups[at].id == id && forall|before: int|
                0 <= before < at ==> (#[trigger] groups[before]).id != id,
            None => forall|at: int| 0 <= at < groups.len() ==> (#[trigger] groups[at]).id != id,
        }),
    decreases groups.len(),
{
    if groups.len() > 0 {
        lemma_find_group(groups.drop_last(), id);
        match find_group(groups.drop_last(), id) {
            Some(at) => {
                assert(groups[at] == groups.drop_last()[at]);
                assert forall|before: int| 0 <= before < at implies (#[trigger] groups[before]).id
                    != id by {
                    assert(groups[before] == groups.drop_last()[before]);
                }
            },
            None => {
                assert forall|at: int| 0 <= at < groups.len() - 1 implies (#[trigger] groups[at]).id
                    != id by {
                    assert(groups[at] == groups.drop_last()[at]);
                }
            },
        }
    }
}

// ---------------------------------------------------------------------------
// What the groups of some rows are like
// ---------------------------------------------------------------------------

/// Whether row `at` of `rows` names `name` as a member of the group `id`.
pub open spec fn names_member(rows: Seq<Row>, at: int, id: u64, name: Seq<char>) -> bool {
    0 <= at < rows.len() && rows[at].id == id && rows[at].username == name
}

/// Whether row `at` is the first row of `rows` that names the group `id`.
pub open spec fn opens_group(rows: Seq<Row>, at: int, id: u64) -> bool {
    0 <= at < rows.len() && rows[at].id == id && forall|before: int|
        0 <= before < at ==> (#[trigger] rows[before]).id != id
}

/// Whether `group` is what `rows` say of it: it has the name and the time of
/// the first row that names it, and its members are the members that its rows
/// name, each of them once.
pub open spec fn group_is_gathered(group: GroupView, rows: Seq<Row>) -> bool {
    &&& group.people.no_duplicates()
    &&& exists|at: int| #[trigger]
        opens_group(rows, at, group.id) && rows[at].name == group.name && rows[at].last_time
            == group.last_time
    &&& forall|name: Seq<char>| #[trigger]
        group.people.contains(name) <==> exists|at: int| #[trigger]
            names_member(rows, at, group.id, name)
}

/// Whether some row of `rows` names the group `id`.
pub open spec fn is_named(rows: Seq<Row>, id: u64) -> bool {
    exists|at: int| 0 <= at < rows.len() && (#[trigger] rows[at]).id == id
}

/// Whether `groups` are the groups of `rows`: no group comes twice, a group
/// is there exactly if a row names it, and each is what the rows say of it.
pub open spec fn gathered(groups: Seq<GroupView>, rows: Seq<Row>) -> bool {
    &&& forall|i: int, j: int|
        0 <= i < j < groups.len() ==> (#[trigger] groups[i]).id != (#[trigger] groups[j]).id
    &&& forall|id: u64| #[trigger] is_named(rows, id) <==> find_group(groups, id) is Some
    &&& forall|i: int| 0 <= i < groups.len() ==> group_is_gathered(#[trigger] groups[i], rows)
}

proof fn lemma_row_joins_or_opens(groups: Seq<GroupView>, rows: Seq<Row>, row: Row)
    requires
        gathered(groups, rows),
    ensures
        gathered(with_row(groups, row), rows.push(row)),
{
    let more = rows.push(row);
    let after = with_row(groups, row);
    let last = rows.len() as int;
    lemma_find_group(groups, row.id);
    assert(more[last] == row);
    assert forall|at: int| 0 <= at < rows.len() implies #[trigger] more[at] == rows[at] by {}
    // Whatever was named before is named now, and the new row names its group.
    assert forall|id: u64| #[trigger] is_named(more, id) <==> (is_named(rows, id) || id
        == row.id) by {
        if is_named(rows, id) {
            let at = choose|at: int| 0 <= at < rows.len() && (#[trigger] rows[at]).id == id;
            assert(more[at].id == id);
        }
        if id == row.id {
            assert(more[last].id == id);
        }
        if is_named(more, id) {
            let at = choose|at: int| 0 <= at < more.len() && (#[trigger] more[at]).id == id;
            if at < last {
                assert(rows[at].id == id);
            }
        }
    }
    // A group that the new row does not name is untouched by it.
    assert forall|group: GroupView|
        group_is_gathered(group, rows) && group.id != row.id implies #[trigger] group_is_gathered(
        group,
        more,
    ) by {
        let opened = choose|at: int| #[trigger]
            opens_group(rows, at, group.id) && rows[at].name == group.name && rows[at].last_time
                == group.last_time;
        assert(opens_group(more, opened, group.id)) by {
            assert forall|before: int| 0 <= before < opened implies (#[trigger] more[before]).id
                != group.id by {
                assert(rows[before].id != group.id);
            }
        }
        assert forall|name: Seq<char>| #[trigger]
            group.people.contains(name) <==> exists|at: int| #[trigger]
                names_member(more, at, group.id, name) by {
            if group.people.contains(name) {
                let at = choose|at: int| #[trigger] names_member(rows, at, group.id, name);
                assert(names_member(more, at, group.id, name));
            }
            if exists|at: int| #[trigger] names_member(more, at, group.id, name) {
                let at = choose|at: int| #[trigger] names_member(more, at, group.id, name);
                assert(at < last);
                assert(names_member(rows, at, group.id, name));
            }
        }
    }
    match find_group(groups, row.id) {
        Some(place) => {
            let before = groups[place];
            let group = GroupView { people: joined(before.people, row.username), ..before };
            assert(after == groups.update(place, group));
            assert forall|id: u64| find_group(after, id) is Some <==> find_group(
                groups,
                id,
            ) is Some by {
                lemma_find_group(after, id);
                lemma_find_group(groups, id);
                if find_group(groups, id) is Some {
                    let at = find_group(groups, id)->0;
                    assert(after[at].id == id);
                }
                if find_group(after, id) is Some {
                    let at = find_group(after, id)->0;
                    assert(groups[at].id == id);
                }
            }
            assert(is_named(rows, row.id));
            assert(group_is_gathered(before, rows));
            assert(group_is_gathered(group, more)) by {
                if !before.people.contains(row.username) {
                    assert forall|i: int, j: int|
                        0 <= i < group.people.len() && 0 <= j < group.people.len() && i
                            != j implies group.people[i] != group.people[j] by {
                        if i < before.people.len() && j < before.people.len() {
                        } else if i < before.people.len() {
                            assert(before.people.contains(before.people[i]));
                        } else if j < before.people.len() {
                            assert(before.people.contains(before.people[j]));
                        }
                    }
                }
                let opened = choose|at: int| #[trigger]
                    opens_group(rows, at, before.id) && rows[at].name == before.name
                        && rows[at].last_time == before.last_time;
                assert(opens_group(more, opened, group.id)) by {
                    assert forall|earlier: int| 0 <= earlier < opened implies (
                    #[trigger] more[earlier]).id != group.id by {
                        assert(rows[earlier].id != group.id);
                    }
                }
                assert forall|name: Seq<char>| #[trigger]
                    group.people.contains(name) <==> exists|at: int| #[trigger]
                        names_member(more, at, group.id, name) by {
                    if group.people.contains(name) {
                        if before.people.contains(name) {
                            let at = choose|at: int| #[trigger]
                                names_member(rows, at, before.id, name);
                            assert(names_member(more, at, group.id, name));
                        } else {
                            let i = choose|i: int|
                                0 <= i < group.people.len() && group.people[i] == name;
                            if i < before.people.len() {
                                assert(before.people[i] == name);
                                assert(before.people.contains(name));
                            }
                            assert(name == row.username);
                            assert(names_member(more, last, group.id, name));
                        }
                    }
                    if exists|at: int| #[trigger] names_member(more, at, group.id, name) {
                        let at = choose|at: int| #[trigger] names_member(more, at, group.id, name);
                        if at < last {
                            assert(names_member(rows, at, before.id, name));
                            assert(before.people.contains(name));
                            let i = choose|i: int|
                                0 <= i < before.people.len() && before.people[i] == name;
                            assert(group.people[i] == name);
                        } else {
                            assert(name == row.username);
                            if before.people.contains(name) {
                                let i = choose|i: int|
                                    0 <= i < before.people.len() && before.people[i] == name;
                                assert(group.people[i] == name);
                            } else {
                                assert(group.people[before.people.len() as int] == name);
                            }
                        }
                    }
                }
            }
            assert forall|i: int| 0 <= i < after.len() implies group_is_gathered(
                #[trigger] after[i],
                more,
            ) by {
                if i != place {
                    assert(after[i] == groups[i]);
                    assert(group_is_gathered(groups[i], rows));
                    if i < place {
                        assert(groups[i].id != groups[place].id);
                    } else {
                        assert(groups[place].id != groups[i].id);
                    }
                }
            }
            assert forall|i: int, j: int| 0 <= i < j < after.len() implies (#[trigger] after[i]).id
                != (#[trigger] after[j]).id by {
                assert(after[i].id == groups[i].id);
                assert(after[j].id == groups[j].id);
            }
        },
        None => {
            let group = GroupView {
                id: row.id,
                name: row.name,
                people: seq![row.username],
                last_time: row.last_time,
            };
            assert(after == groups.push(group));
            assert(after.drop_last() =~= groups);
            assert(!is_named(rows, row.id));
            assert forall|id: u64| find_group(after, id) is Some <==> (find_group(
                groups,
                id,
            ) is Some || id == row.id) by {}
            assert(group_is_gathered(group, more)) by {
                assert(opens_group(more, last, row.id)) by {
                    assert forall|earlier: int| 0 <= earlier < last implies (
                    #[trigger] more[earlier]).id != row.id by {
                        if rows[earlier].id == row.id {
                            assert(is_named(rows, row.id));
                        }
                    }
                }
                assert forall|name: Seq<char>| #[trigger]
                    group.people.contains(name) <==> exists|at: int| #[trigger]
                        names_member(more, at, group.id, name) by {
                    if group.people.contains(name) {
                        let i = choose|i: int|
                            0 <= i < group.people.len() && group.people[i] == name;
                        assert(names_member(more, last, group.id, name));
                    }
                    if exists|at: int| #[trigger] names_member(more, at, group.id, name) {
                        let at = choose|at: int| #[trigger] names_member(more, at, group.id, name);
                        if at < last {
                            assert(rows[at].id == row.id);
                            assert(is_named(rows, row.id));
                        }
                        assert(group.people[0] == name);
                    }
                }
            }
            assert forall|i: int| 0 <= i < after.len() implies group_is_gathered(
                #[trigger] after[i],
                more,
            ) by {
                if i < groups.len() {
                    assert(after[i] == groups[i]);
                    assert(group_is_gathered(groups[i], rows));
                    assert(groups[i].id != row.id);
                }
            }
            assert forall|i: int, j: int| 0 <= i < j < after.len() implies (#[trigger] after[i]).id
                != (#[trigger] after[j]).id by {
                assert(after[i] == groups[i]);
                if j < groups.len() {
                    assert(after[j] == groups[j]);
                }
            }
        },
    }
}

/// The groups that rows make are the groups of those rows: no group comes
/// twice; a group is there exactly if a row names it; it has the name and
/// the time of the first row that names it; and its members are the members
/// that its rows name, each of them once.
pub proof fn lemma_grouped_is_gathered(rows: Seq<Row>)
    ensures
        gathered(grouped(rows), rows),
    decreases rows.len(),
{
    if rows.len() == 0 {
        assert forall|id: u64| !(#[trigger] is_named(rows, id)) by {}
    } else {
        lemma_grouped_is_gathered(rows.drop_last());
        lemma_row_joins_or_opens(grouped(rows.drop_last()), rows.drop_last(), rows.last());
        assert(rows.drop_last().push(rows.last()) =~= rows);
    }
}

// ---------------------------------------------------------------------------
// Gathering
// ---------------------------------------------------------------------------

fn position(groups: &Vec<Group>, id: u64) -> (found: Option<usize>)
    ensures
        match found {
            Some(at) => find_group(groups.deep_view(), id) == Some(at as int),
            None => find_group(groups.deep_view(), id) is None,
        },
{
    let ghost all = groups.deep_view();
    let mut at: usize = 0;
    while at < groups.len()
        invariant
            at <= groups.len(),
            all == groups.deep_view(),
            forall|before: int| 0 <= before < at ==> (#[trigger] all[before]).id != id,
        decreases groups.len() - at,
    {
        if groups[at].id == id {
            proof {
                lemma_find_group(all, id);
                assert(all[at as int].id == id);
            }
            return Some(at);
        }
        at += 1;
    }
    proof {
        lemma_find_group(all, id);
    }
    None
}

fn join(people: &mut Vec<String>, name: &String)
    ensures
        final(people).deep_view() == joined(old(people).deep_view(), name@),
{
    let ghost before = people.deep_view();
    let mut at: usize = 0;
    while at < people.len()
        invariant
            at <= people.len(),
            before == people.deep_view(),
            forall|earlier: int| 0 <= earlier < at ==> (#[trigger] before[earlier]) != name@,
        decreases people.len() - at,
    {
        if people[at] == *name {
            proof {
                assert(before[at as int] == name@);
                assert(before.contains(name@));
            }
            return ;
        }
        at += 1;
    }
    proof {
        assert(!before.contains(name@));
    }
    people.push(name.clone());
    proof {
        assert(people.deep_view() =~= before.push(name@));
    }
}

fn add_row(groups: &mut Vec<Group>, row: &QueryResult)
    ensures
        final(groups).deep_view() == with_row(old(groups).deep_view(), row@),
{
    let ghost before = groups.deep_view();
    match position(groups, row.id) {
        Some(at) => {
            proof {
                lemma_find_group(before, row.id);
            }
            let mut group = groups.remove(at);
            let mut people = group.people;
            join(&mut people, &row.username);
            group.people = people;
            groups.insert(at, group);
            proof {
                assert(groups.deep_view() =~= with_row(before, row@));
            }
        },
        None => {
            let mut people: Vec<String> = Vec::new();
            people.push(row.username.clone());
            proof {
                assert(people.deep_view() =~= seq![row@.username]);
            }
            groups.push(
                Group { id: row.id, name: row.name.clone(), people, last_time: row.last_time },
            );
            proof {
                assert(groups.deep_view() =~= with_row(before, row@));
            }
        },
    }
}

/// Gathers the rows of the store's answer into groups.
///
/// Each group that a row names comes out once, in the place where its first
/// row stood among the first rows of all groups, with the name and the time of
/// that row; its members are the members that its rows name, each once, in
/// the order in which the rows name them first.
pub fn get_user_groups(rows: &Vec<QueryResult>) -> (groups: Vec<Group>)
    ensures
        groups.deep_view() == grouped(rows.deep_view()),
{
    let ghost all = rows.deep_view();
    let mut groups: Vec<Group> = Vec::new();
    let mut taken: usize = 0;
    proof {
        assert(all.take(0) =~= Seq::<Row>::empty());
        assert(groups.deep_view() =~= Seq::<GroupView>::empty());
    }
    while taken < rows.len()
        invariant
            taken <= rows.len(),
            all == rows.deep_view(),
            groups.deep_view() == grouped(all.take(taken as int)),
        decreases rows.len() - taken,
    {
        add_row(&mut groups, &rows[taken]);
        proof {
            assert(all.take(taken + 1).drop_last() =~= all.take(taken as int));
            assert(all.take(taken + 1).last() == rows[taken as int]@);
        }
        taken += 1;
    }
    proof {
        assert(all.take(taken as int) =~= all);
    }
    groups
}

/// What the requester is told when a group has been created, of which
/// `rows_affected` members were stored.
pub fn create_group(rows_affected: u64) -> (text: String)
    ensures
        text@ == "Group created successfully -> "@ + decimal(rows_affected as nat),
{
    let mut text = String::from_str("Group created successfully -> ");
    text.append(decimal_string(rows_affected).as_str());
    text
}

} // verus!
