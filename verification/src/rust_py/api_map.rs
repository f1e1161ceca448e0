//! How the names of the Rust-side game API are written in the game's Python.
use vstd::prelude::*;
use crate::text::{push_str, str_eq, string_of};

verus! {

/// One of the four compass directions.
pub open spec fn direction_name(name: Seq<char>) -> bool {
    name == "North"@ || name == "East"@ || name == "South"@ || name == "West"@
}

/// The Python namespace that a Rust enum of the game API stands for.
pub open spec fn python_namespace(namespace: Seq<char>) -> Option<Seq<char>> {
    if namespace == "Entity"@ {
        Some("Entities"@)
    } else if namespace == "Ground"@ {
        Some("Grounds"@)
    } else if namespace == "Item"@ {
        Some("Items"@)
    } else if namespace == "Unlock"@ {
        Some("Unlocks"@)
    } else if namespace == "Leaderboard"@ {
        Some("Leaderboards"@)
    } else {
        None
    }
}

/// `Namespace::name` written in Python: the game's plural namespace, a bare direction,
/// or `namespace.name`.
pub open spec fn namespace_spec(namespace: Seq<char>, name: Seq<char>) -> Seq<char> {
    match python_namespace(namespace) {
        Some(ns) => ns + "."@ + name,
        None => if namespace == "Direction"@ && direction_name(name) {
            name
        } else {
            namespace + "."@ + name
        },
    }
}

/// An identifier written in Python: booleans capitalised, and the Rust-only spellings
/// of game functions replaced by the game's own names.
pub open spec fn identifier_spec(name: Seq<char>) -> Seq<char> {
    if name == "true"@ {
        "True"@
    } else if name == "false"@ {
        "False"@
    } else if name == "move_dir"@ {
        "move"@
    } else if name == "trade_n"@ {
        "trade"@
    } else if name == "use_item_n"@ {
        "use_item"@
    } else if name == "measure_dir"@ {
        "measure"@
    } else {
        name
    }
}

/// Whether `name` is a compass direction.
fn is_direction(name: &str) -> (r: bool)
    ensures
        r == direction_name(name@),
{
    str_eq(name, "North") || str_eq(name, "East") || str_eq(name, "South") || str_eq(name, "West")
}

/// `Namespace::name` written in Python.
pub fn map_namespace(namespace: &str, name: &str) -> (r: String)
    ensures
        r@ == namespace_spec(namespace@, name@),
{
    let mut out: Vec<char> = Vec::new();
    if str_eq(namespace, "Entity") {
        push_str(&mut out, "Entities");
    } else if str_eq(namespace, "Ground") {
        push_str(&mut out, "Grounds");
    } else if str_eq(namespace, "Item") {
        push_str(&mut out, "Items");
    } else if str_eq(namespace, "Unlock") {
        push_str(&mut out, "Unlocks");
    } else if str_eq(namespace, "Leaderboard") {
        push_str(&mut out, "Leaderboards");
    } else if str_eq(namespace, "Direction") && is_direction(name) {
        push_str(&mut out, name);
        proof {
            assert(out@ =~= namespace_spec(namespace@, name@));
        }
        return string_of(out.as_slice());
    } else {
        push_str(&mut out, namespace);
    }
    push_str(&mut out, ".");
    push_str(&mut out, name);
    proof {
        assert(out@ =~= namespace_spec(namespace@, name@));
    }
    string_of(out.as_slice())
}

/// An identifier written in Python.
pub fn map_identifier(name: &str) -> (r: String)
    ensures
        r@ == identifier_spec(name@),
{
    let mapped = if str_eq(name, "true") {
        "True"
    } else if str_eq(name, "false") {
        "False"
    } else if str_eq(name, "move_dir") {
        "move"
    } else if str_eq(name, "trade_n") {
        "trade"
    } else if str_eq(name, "use_item_n") {
        "use_item"
    } else if str_eq(name, "measure_dir") {
        "measure"
    } else {
        name
    };
    String::from_str(mapped)
}

} // verus!
