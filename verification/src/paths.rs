//! Where the build tasks read and write their files, relative to the root of
//! the project checkout. Paths are joined with the platform's separator
//! (`std::path::MAIN_SEPARATOR`), which the caller passes in as `sep`.

use vstd::prelude::*;
use crate::numfmt::{push_char, push_str};

verus! {

/// Whether `c` separates path components where `sep` is the platform's
/// separator: `/` always does, and so does `sep` (`\` on Windows).
pub open spec fn is_separator(c: char, sep: char) -> bool {
    c == '/' || c == sep
}

/// `rel` appended to `base` as a path component, as `Path::join` does for a
/// relative `rel`: `sep` goes between them unless `base` is empty or already
/// ends with a separator.
pub open spec fn joined(base: Seq<char>, rel: Seq<char>, sep: char) -> Seq<char> {
    if base.len() == 0 || is_separator(base.last(), sep) {
        base + rel
    } else {
        base + seq![sep] + rel
    }
}

/// `base` joined with the relative path `rel`.
pub fn join_path(base: &str, rel: &str, sep: char) -> (r: String)
    ensures
        r@ == joined(base@, rel@, sep),
{
    let mut s = String::new();
    push_str(&mut s, base);
    let n = base.unicode_len();
    if n > 0 {
        let last = base.get_char(n - 1);
        if last != '/' && last != sep {
            push_char(&mut s, sep);
        }
    }
    push_str(&mut s, rel);
    proof {
        if base@.len() > 0 {
            assert(base@.last() == base@[n - 1]);
        }
    }
    s
}

/// The item tree that the item-id generator reads.
pub fn item_ids_yml_path(root: &str, sep: char) -> (r: String)
    ensures
        r@ == joined(joined(joined(joined(root@, "xtask"@, sep), "src"@, sep), "codegen"@, sep), "item_ids.yml"@, sep),
{
    let a = join_path(root, "xtask", sep);
    let b = join_path(a.as_str(), "src", sep);
    let c = join_path(b.as_str(), "codegen", sep);
    join_path(c.as_str(), "item_ids.yml", sep)
}

/// The item tree that the item-id generator writes, for the spawner to embed.
pub fn item_ids_json_path(root: &str, sep: char) -> (r: String)
    ensures
        r@ == joined(
            joined(joined(joined(root@, "practice-tool"@, sep), "src"@, sep), "widgets"@, sep),
            "item_ids.json"@,
            sep,
        ),
{
    let a = join_path(root, "practice-tool", sep);
    let b = join_path(a.as_str(), "src", sep);
    let c = join_path(b.as_str(), "widgets", sep);
    join_path(c.as_str(), "item_ids.json", sep)
}

/// The directory that distribution archives are written to.
pub fn dist_dir(root: &str, sep: char) -> (r: String)
    ensures
        r@ == joined(root@, "target/dist"@, sep),
{
    join_path(root, "target/dist", sep)
}

/// The generated table of base addresses, in the game-memory library.
pub fn base_addresses_rs_path(root: &str, sep: char) -> (r: String)
    ensures
        r@ == joined(
            joined(joined(joined(joined(root@, "lib"@, sep), "libeldenring"@, sep), "src"@, sep), "codegen"@, sep),
            "base_addresses.rs"@,
            sep,
        ),
{
    let a = join_path(root, "lib", sep);
    let b = join_path(a.as_str(), "libeldenring", sep);
    let c = join_path(b.as_str(), "src", sep);
    let d = join_path(c.as_str(), "codegen", sep);
    join_path(d.as_str(), "base_addresses.rs", sep)
}

/// The game executable of each patch directory, in the order given.
pub fn patches_paths(dirs: &Vec<String>, sep: char) -> (r: Vec<String>)
    ensures
        r@.len() == dirs@.len(),
        forall|i: int|
            0 <= i < dirs@.len() ==> #[trigger] r@[i]@ == joined(joined(dirs@[i]@, "Game"@, sep), "eldenring.exe"@, sep),
{
    let mut out: Vec<String> = Vec::new();
    let mut i: usize = 0;
    while i < dirs.len()
        invariant
            i <= dirs@.len(),
            out@.len() == i,
            forall|j: int|
                0 <= j < i ==> #[trigger] out@[j]@ == joined(joined(dirs@[j]@, "Game"@, sep), "eldenring.exe"@, sep),
        decreases dirs@.len() - i,
    {
        let game = join_path(dirs[i].as_str(), "Game", sep);
        out.push(join_path(game.as_str(), "eldenring.exe", sep));
        i = i + 1;
    }
    out
}

} // verus!
