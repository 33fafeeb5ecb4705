//! Reading the class table's shape out of `ships.ron` so each authored class
//! can become a composable template under its own name.
//!
//! The file is walked as values: a map at the root, a `classes` list in it, and
//! in each entry a `name` string and a `class` body. The body is handed on as
//! it stands; only the shape around it is checked here.

use vstd::prelude::*;
use crate::text::str_eq;

verus! {

/// A RON value as the walk reads it: maps (entries in order), lists and
/// strings are looked inside; anything else (`V`) is carried through whole.
pub enum RonNode<V> {
    Table(Vec<(RonNode<V>, RonNode<V>)>),
    List(Vec<RonNode<V>>),
    Text(String),
    Other(V),
}

/// Why `ships.ron` does not have the shape of a class table, naming the part
/// that is wrong.
#[derive(Debug, Clone, Copy, PartialEq, Eq)]
pub enum ShapeError {
    NotAMap(&'static str),
}

/// The index of the entry whose key is the string `key`.
pub open spec fn entry_for<V>(entries: Seq<(RonNode<V>, RonNode<V>)>, key: Seq<char>) -> Option<int>
    decreases entries.len(),
{
    if entries.len() == 0 {
        None
    } else {
        match entry_for(entries.drop_last(), key) {
            Some(i) => Some(i),
            None => match entries.last().0 {
                RonNode::Text(s) => if s@ == key {
                    Some(entries.len() - 1)
                } else {
                    None
                },
                _ => None,
            },
        }
    }
}

/// What is wrong with one class entry, if anything: it must be a map with a
/// string `name` and a `class`.
pub open spec fn entry_problem<V>(entry: RonNode<V>) -> Option<Seq<char>> {
    match entry {
        RonNode::Table(m) => match entry_for(m@, "name"@) {
            Some(i) => if m@[i].1 is Text {
                match entry_for(m@, "class"@) {
                    Some(_) => None,
                    None => Some("ships.ron class body"@),
                }
            } else {
                Some("ships.ron class name"@)
            },
            None => Some("ships.ron class name"@),
        },
        _ => Some("ships.ron class entry"@),
    }
}

/// The first entry of `classes` with a problem, and what the problem is.
pub open spec fn first_problem<V>(classes: Seq<RonNode<V>>) -> Option<(int, Seq<char>)>
    decreases classes.len(),
{
    if classes.len() == 0 {
        None
    } else {
        match first_problem(classes.drop_last()) {
            Some(p) => Some(p),
            None => match entry_problem(classes.last()) {
                Some(msg) => Some((classes.len() - 1, msg)),
                None => None,
            },
        }
    }
}

/// A well-shaped entry's name.
pub open spec fn entry_name<V>(entry: RonNode<V>) -> Seq<char> {
    match entry {
        RonNode::Table(m) => match m@[entry_for(m@, "name"@)->0].1 {
            RonNode::Text(s) => s@,
            _ => Seq::empty(),
        },
        _ => Seq::empty(),
    }
}

/// A well-shaped entry's class body.
pub open spec fn entry_class<V>(entry: RonNode<V>) -> RonNode<V> {
    match entry {
        RonNode::Table(m) => m@[entry_for(m@, "class"@)->0].1,
        _ => entry,
    }
}

/// Where the class list is, or what is wrong with the root.
pub open spec fn classes_of<V>(root: RonNode<V>) -> Result<Seq<RonNode<V>>, Seq<char>> {
    match root {
        RonNode::Table(m) => match entry_for(m@, "classes"@) {
            Some(i) => match m@[i].1 {
                RonNode::List(classes) => Ok(classes@),
                _ => Err("ships.ron classes"@),
            },
            None => Err("ships.ron classes"@),
        },
        _ => Err("ships.ron root"@),
    }
}

fn find_entry<V>(entries: &Vec<(RonNode<V>, RonNode<V>)>, key: &str) -> (r: Option<usize>)
    ensures
        match r {
            Some(k) => k < entries@.len() && entry_for(entries@, key@) == Some(k as int),
            None => entry_for(entries@, key@) is None,
        },
{
    let mut i: usize = 0;
    while i < entries.len()
        invariant
            i <= entries@.len(),
            entry_for(entries@.subrange(0, i as int), key@) is None,
        decreases entries@.len() - i,
    {
        let hit = match &entries[i].0 {
            RonNode::Text(s) => str_eq(s.as_str(), key),
            _ => false,
        };
        proof {
            let pre = entries@.subrange(0, i + 1);
            assert(pre.drop_last() =~= entries@.subrange(0, i as int));
            assert(pre.last() == entries@[i as int]);
        }
        if hit {
            proof {
                lemma_entry_for_prefix(entries@, key@, i as int);
            }
            return Some(i);
        }
        i = i + 1;
    }
    proof {
        assert(entries@.subrange(0, entries@.len() as int) =~= entries@);
    }
    None
}

proof fn lemma_entry_for_prefix<V>(entries: Seq<(RonNode<V>, RonNode<V>)>, key: Seq<char>, i: int)
    requires
        0 <= i < entries.len(),
        entry_for(entries.subrange(0, i + 1), key) == Some(i),
    ensures
        entry_for(entries, key) == Some(i),
    decreases entries.len(),
{
    if entries.len() > i + 1 {
        let front = entries.drop_last();
        assert(front.subrange(0, i + 1) =~= entries.subrange(0, i + 1));
        lemma_entry_for_prefix(front, key, i);
    } else {
        assert(entries.subrange(0, i + 1) =~= entries);
    }
}

/// Check one class entry and, when it is well shaped, hand back its name and
/// its class body.
fn read_entry<V>(entry: &RonNode<V>) -> (r: Result<(&String, &RonNode<V>), ShapeError>)
    ensures
        match entry_problem(*entry) {
            Some(msg) => r matches Err(ShapeError::NotAMap(m)) && m@ == msg,
            None => r matches Ok((name, class)) && name@ == entry_name(*entry) && *class
                == entry_class(*entry),
        },
{
    proof {
        reveal_strlit("name");
        reveal_strlit("class");
    }
    match entry {
        RonNode::Table(m) => {
            let name = match find_entry(m, "name") {
                Some(i) => match &m[i].1 {
                    RonNode::Text(s) => s,
                    _ => return Err(ShapeError::NotAMap("ships.ron class name")),
                },
                None => return Err(ShapeError::NotAMap("ships.ron class name")),
            };
            match find_entry(m, "class") {
                Some(j) => Ok((name, &m[j].1)),
                None => Err(ShapeError::NotAMap("ships.ron class body")),
            }
        },
        _ => Err(ShapeError::NotAMap("ships.ron class entry")),
    }
}

/// The authored classes of `ships.ron`, each as its name and its class body,
/// in file order: or, when the file is not shaped like a class table, which
/// part is wrong (the root, the `classes` list, or the first bad entry).
pub fn catalog_entries<V>(root: &RonNode<V>) -> (r: Result<Vec<(&String, &RonNode<V>)>, ShapeError>)
    ensures
        match classes_of(*root) {
            Err(msg) => r matches Err(ShapeError::NotAMap(m)) && m@ == msg,
            Ok(classes) => match first_problem(classes) {
                Some((_, msg)) => r matches Err(ShapeError::NotAMap(m)) && m@ == msg,
                None => r matches Ok(entries) && entries@.len() == classes.len() && forall|i: int|
                    0 <= i < classes.len() ==> (#[trigger] entries@[i]).0@ == entry_name(classes[i])
                        && *entries@[i].1 == entry_class(classes[i]),
            },
        },
{
    proof {
        reveal_strlit("classes");
    }
    let classes = match root {
        RonNode::Table(m) => match find_entry(m, "classes") {
            Some(i) => match &m[i].1 {
                RonNode::List(classes) => classes,
                _ => return Err(ShapeError::NotAMap("ships.ron classes")),
            },
            None => return Err(ShapeError::NotAMap("ships.ron classes")),
        },
        _ => return Err(ShapeError::NotAMap("ships.ron root")),
    };
    let mut out: Vec<(&String, &RonNode<V>)> = Vec::new();
    let mut k: usize = 0;
    while k < classes.len()
        invariant
            classes_of(*root) == Ok::<Seq<RonNode<V>>, Seq<char>>(classes@),
            k <= classes@.len(),
            first_problem(classes@.subrange(0, k as int)) is None,
            out@.len() == k,
            forall|i: int|
                0 <= i < k ==> (#[trigger] out@[i]).0@ == entry_name(classes@[i]) && *out@[i].1
                    == entry_class(classes@[i]),
        decreases classes@.len() - k,
    {
        proof {
            let pre = classes@.subrange(0, k + 1);
            assert(pre.drop_last() =~= classes@.subrange(0, k as int));
            assert(pre.last() == classes@[k as int]);
        }
        match read_entry(&classes[k]) {
            Ok(pair) => {
                out.push(pair);
            },
            Err(e) => {
                proof {
                    lemma_first_problem_prefix(classes@, k as int);
                }
                return Err(e);
            },
        }
        k = k + 1;
    }
    proof {
        assert(classes@.subrange(0, classes@.len() as int) =~= classes@);
    }
    Ok(out)
}

proof fn lemma_first_problem_prefix<V>(classes: Seq<RonNode<V>>, k: int)
    requires
        0 <= k < classes.len(),
        first_problem(classes.subrange(0, k)) is None,
        entry_problem(classes[k]) is Some,
    ensures
        first_problem(classes) == Some((k, entry_problem(classes[k])->0)),
    decreases classes.len(),
{
    let pre = classes.subrange(0, k + 1);
    assert(pre.drop_last() =~= classes.subrange(0, k));
    if classes.len() > k + 1 {
        let front = classes.drop_last();
        assert(front.subrange(0, k) =~= classes.subrange(0, k));
        assert(front[k] == classes[k]);
        lemma_first_problem_prefix(front, k);
    } else {
        assert(pre =~= classes);
    }
}

} // verus!
