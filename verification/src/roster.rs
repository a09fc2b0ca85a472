//! The roster store: which people belong to which department.
//!
//! Department names and member names are kept in lowercase, so that the
//! casing of what the user types does not matter. The members of a
//! department stay in the order in which they were added, and a name
//! added twice is listed twice.

use vstd::prelude::*;
use crate::text::{lowercase, texts};

verus! {

/// What a roster holds: for each department, by its name, its members in
/// the order in which they were added.
pub type RosterView = Map<Seq<char>, Seq<Seq<char>>>;

/// One line of a listing: a department and one of its members.
pub type PairView = (Seq<char>, Seq<char>);

/// The members of department `key`, none where the roster does not know
/// the department.
pub open spec fn members_of(roster: RosterView, key: Seq<char>) -> Seq<Seq<char>> {
    if roster.dom().contains(key) {
        roster[key]
    } else {
        Seq::empty()
    }
}

/// The roster after `name` was added to `department`: both are put in
/// lowercase, and the name goes behind the members that the department
/// already has.
pub open spec fn added(roster: RosterView, department: Seq<char>, name: Seq<char>) -> RosterView {
    roster.insert(
        lowercase(department),
        members_of(roster, lowercase(department)).push(lowercase(name)),
    )
}

/// A text is normal when it is the lowercase form of some text.
pub open spec fn is_normal(s: Seq<char>) -> bool {
    exists|t: Seq<char>| s == lowercase(t)
}

/// What holds of every roster that was built by adding people to an empty
/// one: department names and member names are normal, and no department
/// is without members.
pub open spec fn consistent(roster: RosterView) -> bool {
    forall|key: Seq<char>| #[trigger]
        roster.dom().contains(key) ==> {
            &&& is_normal(key)
            &&& roster[key].len() > 0
            &&& forall|i: int| 0 <= i < roster[key].len() ==> is_normal(#[trigger] roster[key][i])
        }
}

/// The lines that list one department: a pair for each member, in order.
pub open spec fn department_pairs(department: Seq<char>, members: Seq<Seq<char>>) -> Seq<PairView> {
    Seq::new(members.len(), |i: int| (department, members[i]))
}

/// The lines that list the departments of `order`, one department after
/// the other.
pub open spec fn listing(roster: RosterView, order: Seq<Seq<char>>) -> Seq<PairView>
    decreases order.len(),
{
    if order.len() == 0 {
        Seq::empty()
    } else {
        listing(roster, order.drop_last()) + department_pairs(
            order.last(),
            roster[order.last()],
        )
    }
}

/// Whether `order` names every department of the roster exactly once.
pub open spec fn is_order_of(roster: RosterView, order: Seq<Seq<char>>) -> bool {
    &&& order.no_duplicates()
    &&& forall|key: Seq<char>| roster.dom().contains(key) <==> #[trigger] order.contains(key)
}

/// Whether `pairs` lists the whole roster: department by department, in
/// some order of the departments, and within a department member by
/// member in the order in which they were added. The order of the
/// departments is left open.
pub open spec fn is_listing(roster: RosterView, pairs: Seq<PairView>) -> bool {
    exists|order: Seq<Seq<char>>| is_order_of(roster, order) && pairs == #[trigger] listing(roster, order)
}

/// The texts of a vector of pairs of strings.
pub open spec fn pair_texts(pairs: Seq<(String, String)>) -> Seq<PairView> {
    Seq::new(pairs.len(), |i: int| (pairs[i].0@, pairs[i].1@))
}

/// How many members the departments of `order` have together.
pub open spec fn total_members(roster: RosterView, order: Seq<Seq<char>>) -> nat
    decreases order.len(),
{
    if order.len() == 0 {
        0
    } else {
        total_members(roster, order.drop_last()) + roster[order.last()].len()
    }
}

/// A roster without departments is consistent.
pub proof fn law_empty_is_consistent()
    ensures
        consistent(Map::<Seq<char>, Seq<Seq<char>>>::empty()),
{
}

/// Adding a person to a consistent roster gives a consistent roster.
pub proof fn law_add_keeps_consistent(roster: RosterView, department: Seq<char>, name: Seq<char>)
    requires
        consistent(roster),
    ensures
        consistent(added(roster, department, name)),
{
    let key = lowercase(department);
    let after = added(roster, department, name);
    let members = members_of(roster, key);
    assert(is_normal(key));
    assert(is_normal(lowercase(name)));
    assert forall|k: Seq<char>| #[trigger] after.dom().contains(k) implies {
        &&& is_normal(k)
        &&& after[k].len() > 0
        &&& forall|i: int| 0 <= i < after[k].len() ==> is_normal(#[trigger] after[k][i])
    } by {
        if k == key {
            assert forall|i: int| 0 <= i < after[k].len() implies is_normal(
                #[trigger] after[k][i],
            ) by {
                if i < members.len() {
                    assert(roster.dom().contains(key));
                    assert(after[k][i] == roster[key][i]);
                }
            }
        } else {
            assert(roster.dom().contains(k));
            assert(after[k] == roster[k]);
        }
    }
}

/// Two people added to the same department, however its name was cased,
/// stand at the end of its members in the order in which they were added.
pub proof fn law_members_keep_order(
    roster: RosterView,
    first_department: Seq<char>,
    first_name: Seq<char>,
    second_department: Seq<char>,
    second_name: Seq<char>,
)
    requires
        lowercase(first_department) == lowercase(second_department),
    ensures
        members_of(
            added(added(roster, first_department, first_name), second_department, second_name),
            lowercase(first_department),
        ) == members_of(roster, lowercase(first_department)).push(lowercase(first_name)).push(
            lowercase(second_name),
        ),
{
}

/// Adding a person to one department changes no other department.
pub proof fn law_add_leaves_others(
    roster: RosterView,
    department: Seq<char>,
    name: Seq<char>,
    other: Seq<char>,
)
    requires
        other != lowercase(department),
    ensures
        added(roster, department, name).dom().contains(other) == roster.dom().contains(other),
        members_of(added(roster, department, name), other) == members_of(roster, other),
{
}

/// A listing holds a pair for every member of every department and no
/// other pair: as many pairs as the departments of its order have members
/// together.
pub proof fn law_listing_length(roster: RosterView, order: Seq<Seq<char>>)
    ensures
        listing(roster, order).len() == total_members(roster, order),
    decreases order.len(),
{
    if order.len() > 0 {
        law_listing_length(roster, order.drop_last());
    }
}

/// A department with its members.
struct Department {
    name: String,
    members: Vec<String>,
}

/// The roster: departments by name, each with its members.
pub struct Roster {
    departments: Vec<Department>,
}

/// The names of the departments, in the order in which they are kept.
spec fn names_of(departments: Seq<Department>) -> Seq<Seq<char>> {
    Seq::new(departments.len(), |i: int| departments[i].name@)
}

/// The members of the department kept at `i`.
spec fn members_at(departments: Seq<Department>, i: int) -> Seq<Seq<char>> {
    texts(departments[i].members@)
}

/// What the departments hold, each under its name.
spec fn view_of(departments: Seq<Department>) -> RosterView {
    Map::new(
        |key: Seq<char>| names_of(departments).contains(key),
        |key: Seq<char>| members_at(departments, names_of(departments).index_of(key)),
    )
}

/// The department kept at `i` is found under its name.
proof fn lemma_view_at(departments: Seq<Department>, i: int)
    requires
        names_of(departments).no_duplicates(),
        0 <= i < departments.len(),
    ensures
        view_of(departments).dom().contains(names_of(departments)[i]),
        view_of(departments)[names_of(departments)[i]] == members_at(departments, i),
{
    let key = names_of(departments)[i];
    assert(names_of(departments).contains(key));
    let j = names_of(departments).index_of(key);
    assert(names_of(departments)[j] == key);
}

/// Where the department `key` is kept, if it is.
fn position(departments: &Vec<Department>, key: &String) -> (found: Option<usize>)
    ensures
        match found {
            Some(i) => i < departments@.len() && names_of(departments@)[i as int] == key@,
            None => !names_of(departments@).contains(key@),
        },
{
    let mut i: usize = 0;
    while i < departments.len()
        invariant
            i <= departments@.len(),
            forall|j: int| 0 <= j < i ==> names_of(departments@)[j] != key@,
        decreases departments@.len() - i,
    {
        if departments[i].name == *key {
            return Some(i);
        }
        i += 1;
    }
    None
}

impl View for Roster {
    type V = RosterView;

    closed spec fn view(&self) -> RosterView {
        view_of(self.departments@)
    }
}

impl Roster {
    /// No department is kept twice.
    #[verifier::type_invariant]
    closed spec fn distinct(&self) -> bool {
        names_of(self.departments@).no_duplicates()
    }

    /// A roster without departments.
    pub fn new() -> (roster: Roster)
        ensures
            roster@ == Map::<Seq<char>, Seq<Seq<char>>>::empty(),
    {
        let roster = Roster { departments: Vec::new() };
        assert(roster@ =~= Map::<Seq<char>, Seq<Seq<char>>>::empty());
        roster
    }

    /// Adds `name` to `department`.
    ///
    /// Both are put in lowercase first. A department that the roster does
    /// not know yet is created; the name goes behind the members that the
    /// department already has, also where it is among them already.
    pub fn add(&mut self, department: &str, name: &str)
        ensures
            final(self)@ == added(old(self)@, department@, name@),
    {
        proof {
            use_type_invariant(&*self);
        }
        let key = department.to_lowercase();
        let member = name.to_lowercase();
        let mut departments: Vec<Department> = Vec::new();
        std::mem::swap(&mut self.departments, &mut departments);
        let ghost before = departments@;
        let ghost target = added(view_of(before), department@, name@);
        match position(&departments, &key) {
            Some(i) => {
                departments[i].members.push(member);
                proof {
                    let after = departments@;
                    assert(names_of(after) =~= names_of(before));
                    assert(members_at(after, i as int) =~= members_at(before, i as int).push(
                        member@,
                    ));
                    lemma_view_at(before, i as int);
                    assert forall|k: Seq<char>| view_of(after).dom().contains(k) implies #[trigger] view_of(
                        after,
                    )[k] == target[k] by {
                        let j = names_of(after).index_of(k);
                        if j != i {
                            assert(members_at(after, j) == members_at(before, j));
                        }
                    }
                    assert(view_of(after) =~= target);
                }
            },
            None => {
                let mut members: Vec<String> = Vec::new();
                members.push(member);
                departments.push(Department { name: key, members });
                proof {
                    let after = departments@;
                    let n = before.len() as int;
                    assert(names_of(after) =~= names_of(before).push(key@));
                    assert(members_at(after, n) =~= seq![member@]);
                    assert(Seq::<Seq<char>>::empty().push(member@) =~= seq![member@]);
                    assert(names_of(after)[n] == key@);
                    assert forall|k: Seq<char>| view_of(after).dom().contains(k) implies #[trigger] view_of(
                        after,
                    )[k] == target[k] by {
                        let j = names_of(after).index_of(k);
                        if j != n {
                            assert(names_of(before)[j] == k);
                            lemma_view_at(before, j);
                            assert(members_at(after, j) == members_at(before, j));
                        }
                    }
                    assert forall|k: Seq<char>| view_of(before).dom().contains(k) implies view_of(
                        after,
                    ).dom().contains(k) by {
                        let j = names_of(before).index_of(k);
                        assert(names_of(after)[j] == k);
                    }
                    assert(view_of(after) =~= target);
                }
            },
        }
        std::mem::swap(&mut self.departments, &mut departments);
    }

    /// The members of `department`, in the order in which they were
    /// added, or `None` where the roster does not know the department.
    /// The casing of `department` does not matter.
    pub fn list_department(&self, department: &str) -> (found: Option<Vec<String>>)
        ensures
            match found {
                Some(members) => self@.dom().contains(lowercase(department@)) && texts(members@)
                    == self@[lowercase(department@)],
                None => !self@.dom().contains(lowercase(department@)),
            },
    {
        proof {
            use_type_invariant(self);
        }
        let key = department.to_lowercase();
        match position(&self.departments, &key) {
            Some(i) => {
                proof {
                    lemma_view_at(self.departments@, i as int);
                }
                let kept = &self.departments[i].members;
                let mut members: Vec<String> = Vec::new();
                let mut j: usize = 0;
                while j < kept.len()
                    invariant
                        j <= kept@.len(),
                        texts(members@) == texts(kept@).take(j as int),
                    decreases kept@.len() - j,
                {
                    let ghost copied = texts(members@);
                    let member = kept[j].clone();
                    members.push(member);
                    proof {
                        assert(texts(members@) =~= copied.push(kept@[j as int]@));
                        assert(texts(members@) =~= texts(kept@).take(j + 1));
                    }
                    j += 1;
                }
                proof {
                    assert(texts(kept@).take(j as int) =~= texts(kept@));
                }
                Some(members)
            },
            None => None,
        }
    }

    /// Every department with every one of its members, a pair for each.
    ///
    /// The members of a department follow each other in the order in
    /// which they were added. In which order the departments come is not
    /// specified: sort the pairs before comparing them with anything.
    pub fn list_all(&self) -> (pairs: Vec<(String, String)>)
        ensures
            is_listing(self@, pair_texts(pairs@)),
    {
        proof {
            use_type_invariant(self);
        }
        let ghost names = names_of(self.departments@);
        let mut pairs: Vec<(String, String)> = Vec::new();
        let mut i: usize = 0;
        proof {
            assert(names.take(0) =~= Seq::<Seq<char>>::empty());
            assert(pair_texts(pairs@) =~= listing(self@, names.take(0)));
        }
        while i < self.departments.len()
            invariant
                i <= self.departments@.len(),
                names == names_of(self.departments@),
                names.no_duplicates(),
                pair_texts(pairs@) == listing(self@, names.take(i as int)),
            decreases self.departments@.len() - i,
        {
            let department = &self.departments[i];
            let ghost done = pair_texts(pairs@);
            let ghost lines = department_pairs(department.name@, texts(department.members@));
            let mut j: usize = 0;
            proof {
                assert(pair_texts(pairs@) =~= done + lines.take(0));
            }
            while j < department.members.len()
                invariant
                    j <= department.members@.len(),
                    lines == department_pairs(department.name@, texts(department.members@)),
                    pair_texts(pairs@) == done + lines.take(j as int),
                decreases department.members@.len() - j,
            {
                let ghost listed = pair_texts(pairs@);
                let name = department.name.clone();
                let member = department.members[j].clone();
                pairs.push((name, member));
                proof {
                    assert(pair_texts(pairs@) =~= listed.push(lines[j as int]));
                    assert(pair_texts(pairs@) =~= done + lines.take(j + 1));
                }
                j += 1;
            }
            proof {
                assert(lines.take(j as int) =~= lines);
                lemma_view_at(self.departments@, i as int);
                let order = names.take(i + 1);
                assert(order.drop_last() =~= names.take(i as int));
                assert(order.last() == department.name@);
            }
            i += 1;
        }
        proof {
            assert(names.take(i as int) =~= names);
            assert(is_order_of(self@, names));
        }
        pairs
    }
}

} // verus!
