//! Static assets: from the name a page uses to the route that serves the
//! file under its hashed name.

use vstd::prelude::*;
use vstd::hash_map::StringHashMap;
use vstd::string::StringExecFns;

verus! {

/// The hashed file name of each asset, by its original path.
pub struct AssetManager {
    manifest: StringHashMap<String>,
}

/// The manifest that a list of entries makes: each original path with its
/// hashed name, a later entry replacing an earlier one of the same path.
pub open spec fn manifest_of(entries: Seq<(String, String)>) -> Map<Seq<char>, Seq<char>>
    decreases entries.len(),
{
    if entries.len() == 0 {
        Map::empty()
    } else {
        manifest_of(entries.drop_last()).insert(entries.last().0@, entries.last().1@)
    }
}

/// The route that serves an asset of the given hashed name.
pub open spec fn route_of(hashed: Seq<char>) -> Seq<char> {
    "/assets/"@ + hashed
}

impl View for AssetManager {
    type V = Map<Seq<char>, Seq<char>>;

    closed spec fn view(&self) -> Map<Seq<char>, Seq<char>> {
        self.manifest@.map_values(|name: String| name@)
    }
}

impl AssetManager {
    /// The manager of the assets that the entries list.
    pub fn new(entries: Vec<(String, String)>) -> (manager: AssetManager)
        ensures
            manager@ == manifest_of(entries@),
    {
        let mut manifest: StringHashMap<String> = StringHashMap::new();
        let mut i: usize = 0;
        assert(manifest@.map_values(|name: String| name@) =~= manifest_of(entries@.take(0)));
        while i < entries.len()
            invariant
                i <= entries.len(),
                manifest@.map_values(|name: String| name@) == manifest_of(entries@.take(i as int)),
            decreases entries.len() - i,
        {
            let ghost before = manifest@;
            let key = entries[i].0.clone();
            let value = entries[i].1.clone();
            manifest.insert(key, value);
            proof {
                assert(entries@.take(i + 1).drop_last() == entries@.take(i as int));
                assert(entries@.take(i + 1).last() == entries@[i as int]);
                assert(manifest@.map_values(|name: String| name@) =~= before.map_values(
                    |name: String| name@,
                ).insert(key@, value@));
            }
            i += 1;
        }
        proof {
            assert(entries@.take(entries.len() as int) == entries@);
        }
        AssetManager { manifest }
    }

    /// The route of an asset: `/assets/` and its hashed name, or nothing
    /// where the manifest does not list the path.
    pub fn hashed_route(&self, original_path: &str) -> (route: Option<String>)
        ensures
            route is Some <==> self@.contains_key(original_path@),
            route matches Some(r) ==> r@ == route_of(self@[original_path@]),
    {
        match self.manifest.get(original_path) {
            Some(name) => {
                let mut route = String::from_str("/assets/");
                route.append(name.as_str());
                Some(route)
            },
            None => None,
        }
    }
}

/// The character that stands for a value below sixteen.
pub open spec fn hex_digit(value: int) -> char {
    if value == 0 {
        '0'
    } else if value == 1 {
        '1'
    } else if value == 2 {
        '2'
    } else if value == 3 {
        '3'
    } else if value == 4 {
        '4'
    } else if value == 5 {
        '5'
    } else if value == 6 {
        '6'
    } else if value == 7 {
        '7'
    } else if value == 8 {
        '8'
    } else if value == 9 {
        '9'
    } else if value == 10 {
        'a'
    } else if value == 11 {
        'b'
    } else if value == 12 {
        'c'
    } else if value == 13 {
        'd'
    } else if value == 14 {
        'e'
    } else {
        'f'
    }
}

/// A number in base sixteen, in lower case and without leading zeros.
pub open spec fn hex_of(value: nat) -> Seq<char>
    decreases value,
{
    if value < 16 {
        seq![hex_digit(value as int)]
    } else {
        hex_of(value / 16).push(hex_digit((value % 16) as int))
    }
}

/// The name under which an asset is served: its stem, the hash of its
/// content in base sixteen and its extension, with a dot between them.
pub open spec fn hashed_name_of(stem: Seq<char>, hash: u64, extension: Seq<char>) -> Seq<char> {
    stem + "."@ + hex_of(hash as nat) + "."@ + extension
}

fn hex_char(value: u64) -> (c: char)
    requires
        value < 16,
    ensures
        c == hex_digit(value as int),
{
    match value {
        0 => '0',
        1 => '1',
        2 => '2',
        3 => '3',
        4 => '4',
        5 => '5',
        6 => '6',
        7 => '7',
        8 => '8',
        9 => '9',
        10 => 'a',
        11 => 'b',
        12 => 'c',
        13 => 'd',
        14 => 'e',
        _ => 'f',
    }
}

/// Writes a number in base sixteen.
pub fn hex(value: u64) -> (text: String)
    ensures
        text@ == hex_of(value as nat),
{
    let mut digits: Vec<char> = Vec::new();
    let mut rest: u64 = value;
    while rest >= 16
        invariant
            hex_of(value as nat) == hex_of(rest as nat) + digits@,
        decreases rest,
    {
        let digit = hex_char(rest % 16);
        proof {
            assert(hex_of(rest as nat) == hex_of((rest / 16) as nat).push(digit));
            assert(hex_of((rest / 16) as nat).push(digit) + digits@ == hex_of((rest / 16) as nat)
                + digits@.insert(0, digit));
        }
        digits.insert(0, digit);
        rest = rest / 16;
    }
    let first = hex_char(rest);
    proof {
        assert(seq![first] + digits@ == digits@.insert(0, first));
    }
    digits.insert(0, first);
    crate::text::string_of(&digits)
}

/// The name under which an asset is served.
pub fn hashed_name(stem: &str, hash: u64, extension: &str) -> (name: String)
    ensures
        name@ == hashed_name_of(stem@, hash, extension@),
{
    let mut name = String::from_str(stem);
    name.append(".");
    name.append(hex(hash).as_str());
    name.append(".");
    name.append(extension);
    name
}

} // verus!
