//! Paths as Windows writes them.
use vstd::prelude::*;

use crate::text::{chars_of, copy_range, string_of, Text};

verus! {

/// Whether a character stands between the parts of a path.
pub open spec fn is_separator(c: char) -> bool {
    c == '\\' || c == '/'
}

/// Whether a path is taken as it stands: it begins with `\\?\`. Then `/` and `.` mean
/// nothing in it.
pub open spec fn is_exact(path: Text) -> bool {
    path.len() >= 4 && path[0] == '\\' && path[1] == '\\' && path[2] == '?' && path[3] == '\\'
}

/// Whether a character stands between the parts of this path.
pub open spec fn divides(exact: bool, c: char) -> bool {
    c == '\\' || (c == '/' && !exact)
}

/// Whether a drive, such as `C:`, stands at index `i`.
pub open spec fn is_drive(path: Text, i: int) -> bool {
    i + 2 <= path.len() && path[i + 1] == ':' && ('A' <= path[i] <= 'Z' || 'a' <= path[i] <= 'z')
}

/// Where the part that begins at index `i` ends.
pub open spec fn part_end(path: Text, exact: bool, i: int) -> int
    decreases path.len() - i,
{
    if i < 0 || i >= path.len() || divides(exact, path[i]) {
        i
    } else {
        part_end(path, exact, i + 1)
    }
}

/// Where a server's name at index `i` ends, and the share behind it, where there is one.
pub open spec fn share_end(path: Text, exact: bool, i: int) -> int {
    let server = part_end(path, exact, i);
    let share = part_end(path, exact, server + 1);
    if server < path.len() && share > server + 1 {
        share
    } else {
        server
    }
}

/// How much of a path says on which volume it is: `C:`, `\\server\share`, `\\.\device`,
/// or one of these behind `\\?\`.
pub open spec fn prefix_len(path: Text) -> int {
    if is_exact(path) {
        if path.len() >= 8 && path[4] == 'U' && path[5] == 'N' && path[6] == 'C' && is_separator(path[7]) {
            share_end(path, true, 8)
        } else if is_drive(path, 4) && (path.len() == 6 || is_separator(path[6])) {
            6
        } else {
            part_end(path, true, 4)
        }
    } else if path.len() >= 2 && is_separator(path[0]) && is_separator(path[1]) {
        if path.len() >= 4 && path[2] == '.' && is_separator(path[3]) {
            part_end(path, false, 4)
        } else if part_end(path, false, 2) > 2 && share_end(path, false, 2) > part_end(path, false, 2) {
            share_end(path, false, 2)
        } else {
            0
        }
    } else if is_drive(path, 0) {
        2
    } else {
        0
    }
}

/// Whether a separator follows the volume.
pub open spec fn has_root(path: Text) -> bool {
    prefix_len(path) < path.len() && is_separator(path[prefix_len(path)])
}

/// Whether a path begins at the folder that is current: its first part is a dot. Only
/// one that does not begin at the root of its volume can.
pub open spec fn begins_here(path: Text) -> bool {
    let p = prefix_len(path);
    &&& !has_root(path)
    &&& p == 0 || !is_separator(path[0])
    &&& p < path.len() && path[p] == '.'
    &&& p + 1 == path.len() || is_separator(path[p + 1])
}

/// Where the parts of a path begin: behind the volume, the root and a dot that the path
/// begins with.
pub open spec fn parts_at(path: Text) -> int {
    if has_root(path) || begins_here(path) {
        prefix_len(path) + 1
    } else {
        prefix_len(path)
    }
}

/// How much of the first `n` characters of a path is left without what names nothing at
/// their end: separators, and parts that are a single dot.
pub open spec fn kept(path: Text, start: int, n: int) -> int
    decreases n,
{
    let exact = is_exact(path);
    if n <= start || n <= 0 {
        n
    } else if divides(exact, path[n - 1]) {
        kept(path, start, n - 1)
    } else if !exact && path[n - 1] == '.' && n - 1 == start {
        start
    } else if !exact && n >= 2 && path[n - 1] == '.' && divides(exact, path[n - 2]) {
        kept(path, start, n - 2)
    } else {
        n
    }
}

/// How much of the first `n` characters of a path stands before their last part and the
/// separator in front of it.
pub open spec fn before_name(path: Text, start: int, n: int) -> int
    decreases n,
{
    if n <= start || n <= 0 {
        n
    } else if divides(is_exact(path), path[n - 1]) {
        n - 1
    } else {
        before_name(path, start, n - 1)
    }
}

/// The folder that holds what a path leads to: the path without its last part. A volume
/// and its root have none, and neither has nothing.
pub open spec fn parent(path: Text) -> Option<Text> {
    let start = parts_at(path);
    let n = kept(path, start, path.len() as int);
    if n > start {
        Some(path.take(kept(path, start, before_name(path, start, n))))
    } else if begins_here(path) && prefix_len(path) == 0 {
        Some(Seq::empty())
    } else {
        None
    }
}

fn separates(c: char) -> (r: bool)
    ensures
        r == is_separator(c),
{
    c == '\\' || c == '/'
}

fn parts(exact: bool, c: char) -> (r: bool)
    ensures
        r == divides(exact, c),
{
    c == '\\' || (c == '/' && !exact)
}

fn taken_exactly(path: &Vec<char>) -> (r: bool)
    ensures
        r == is_exact(path@),
{
    path.len() >= 4 && path[0] == '\\' && path[1] == '\\' && path[2] == '?' && path[3] == '\\'
}

fn drive_at(path: &Vec<char>, i: usize) -> (r: bool)
    requires
        i <= 4,
    ensures
        r == is_drive(path@, i as int),
{
    i + 2 <= path.len() && path[i + 1] == ':' && (('A' <= path[i] && path[i] <= 'Z') || ('a' <= path[i] && path[i]
        <= 'z'))
}

fn find_part_end(path: &Vec<char>, exact: bool, i: usize) -> (r: usize)
    requires
        i <= path@.len(),
    ensures
        r == part_end(path@, exact, i as int),
        i <= r <= path@.len(),
{
    let n: usize = path.len();
    let mut k: usize = i;
    while k < n && !parts(exact, path[k])
        invariant
            n == path@.len(),
            i <= k <= n,
            part_end(path@, exact, i as int) == part_end(path@, exact, k as int),
        decreases n - k,
    {
        k += 1;
    }
    k
}

fn find_share_end(path: &Vec<char>, exact: bool, i: usize) -> (r: usize)
    requires
        i <= path@.len(),
    ensures
        r == share_end(path@, exact, i as int),
        part_end(path@, exact, i as int) <= r <= path@.len(),
{
    let server: usize = find_part_end(path, exact, i);
    if server < path.len() {
        let share: usize = find_part_end(path, exact, server + 1);
        if share > server + 1 {
            return share;
        }
    }
    server
}

fn find_prefix_len(path: &Vec<char>) -> (r: usize)
    ensures
        r == prefix_len(path@),
        r <= path@.len(),
{
    let n: usize = path.len();
    if taken_exactly(path) {
        if n >= 8 && path[4] == 'U' && path[5] == 'N' && path[6] == 'C' && separates(path[7]) {
            find_share_end(path, true, 8)
        } else if drive_at(path, 4) && (n == 6 || separates(path[6])) {
            6
        } else {
            find_part_end(path, true, 4)
        }
    } else if n >= 2 && separates(path[0]) && separates(path[1]) {
        if n >= 4 && path[2] == '.' && separates(path[3]) {
            return find_part_end(path, false, 4);
        }
        let server: usize = find_part_end(path, false, 2);
        let share: usize = find_share_end(path, false, 2);
        if server > 2 && share > server {
            share
        } else {
            0
        }
    } else if drive_at(path, 0) {
        2
    } else {
        0
    }
}

fn keep(path: &Vec<char>, exact: bool, start: usize, n: usize) -> (r: usize)
    requires
        start <= n <= path@.len(),
        exact == is_exact(path@),
    ensures
        r == kept(path@, start as int, n as int),
        start <= r <= n,
{
    let mut k: usize = n;
    while k > start
        invariant
            start <= k <= n <= path@.len(),
            exact == is_exact(path@),
            kept(path@, start as int, n as int) == kept(path@, start as int, k as int),
        decreases k,
    {
        if parts(exact, path[k - 1]) {
            k -= 1;
        } else if !exact && path[k - 1] == '.' && k - 1 == start {
            return start;
        } else if !exact && path[k - 1] == '.' && parts(exact, path[k - 2]) {
            k -= 2;
        } else {
            return k;
        }
    }
    k
}

fn find_before_name(path: &Vec<char>, exact: bool, start: usize, n: usize) -> (r: usize)
    requires
        start <= n <= path@.len(),
        exact == is_exact(path@),
    ensures
        r == before_name(path@, start as int, n as int),
        start <= r <= n,
{
    let mut k: usize = n;
    while k > start
        invariant
            start <= k <= n <= path@.len(),
            exact == is_exact(path@),
            before_name(path@, start as int, n as int) == before_name(path@, start as int, k as int),
        decreases k,
    {
        if parts(exact, path[k - 1]) {
            return k - 1;
        }
        k -= 1;
    }
    k
}

/// Gives the folder that holds what a path leads to.
pub fn parent_of(path: &str) -> (r: Option<String>)
    ensures
        (match r {
            Some(folder) => Some(folder@),
            None => None,
        }) == parent(path@),
{
    let s = chars_of(path);
    let len: usize = s.len();
    let p: usize = find_prefix_len(&s);
    let root = p < len && separates(s[p]);
    let here = !root && (p == 0 || !separates(s[0])) && p < len && s[p] == '.' && (p + 1 == len || separates(
        s[p + 1],
    ));
    let start: usize = if root || here {
        p + 1
    } else {
        p
    };
    let exact = taken_exactly(&s);
    let n: usize = keep(&s, exact, start, len);
    if n > start {
        let k: usize = keep(&s, exact, start, find_before_name(&s, exact, start, n));
        let folder = copy_range(&s, 0, k);
        assert(folder@ =~= path@.take(k as int));
        Some(string_of(&folder))
    } else if here && p == 0 {
        let empty = "".to_owned();
        proof {
            reveal_strlit("");
        }
        assert(empty@ =~= Seq::empty());
        Some(empty)
    } else {
        None
    }
}

/// The folder of a file on a drive is the one that the path says it is in.
pub proof fn law_folder_of_a_file(folder: Text, separator: char, name: Text)
    requires
        is_drive(folder, 0),
        folder.len() > 3,
        is_separator(folder[2]),
        !is_separator(folder.last()),
        folder.last() == '.' ==> !is_separator(folder[folder.len() - 2]),
        is_separator(separator),
        name.len() > 0,
        name != seq!['.'],
        forall|i: int| 0 <= i < name.len() ==> !is_separator(#[trigger] name[i]),
    ensures
        parent(folder + seq![separator] + name) == Some(folder),
{
    let path = folder + seq![separator] + name;
    let n = path.len() as int;
    let k = folder.len() as int;
    assert(parts_at(path) == 3);
    assert(path[n - 1] == name.last());
    assert(kept(path, 3, n) == n) by {
        if name.len() == 1 {
            assert(name =~= seq![name[0]]);
        } else {
            assert(path[n - 2] == name[name.len() - 2]);
        }
    }
    assert(path[k] == separator);
    lemma_before_name(path, 3, k, n);
    assert(path[k - 1] == folder.last() && path[k - 2] == folder[k - 2]);
    assert(kept(path, 3, k) == k);
    assert(path.take(k) =~= folder);
}

proof fn lemma_before_name(path: Text, start: int, k: int, n: int)
    requires
        0 <= start <= k < n <= path.len(),
        !is_exact(path),
        is_separator(path[k]),
        forall|i: int| k < i < n ==> !is_separator(#[trigger] path[i]),
    ensures
        before_name(path, start, n) == k,
    decreases n,
{
    if k + 1 < n {
        lemma_before_name(path, start, k, n - 1);
    }
}

/// The folder that holds what a path leads to is a start of the path.
pub proof fn law_folder_is_part_of_the_path(path: Text)
    ensures
        parent(path) matches Some(folder) ==> folder.is_prefix_of(path),
{
    let start = parts_at(path);
    lemma_prefix_len(path);
    let n = kept(path, start, path.len() as int);
    lemma_kept(path, start, path.len() as int);
    if n > start {
        lemma_before_name_bound(path, start, n);
        lemma_kept(path, start, before_name(path, start, n));
    }
}

proof fn lemma_part_end(path: Text, exact: bool, i: int)
    requires
        0 <= i <= path.len(),
    ensures
        i <= part_end(path, exact, i) <= path.len(),
    decreases path.len() - i,
{
    if i < path.len() {
        lemma_part_end(path, exact, i + 1);
    }
}

proof fn lemma_share_end(path: Text, exact: bool, i: int)
    requires
        0 <= i <= path.len(),
    ensures
        i <= share_end(path, exact, i) <= path.len(),
{
    lemma_part_end(path, exact, i);
    let server = part_end(path, exact, i);
    if server < path.len() {
        lemma_part_end(path, exact, server + 1);
    }
}

proof fn lemma_prefix_len(path: Text)
    ensures
        0 <= prefix_len(path) <= path.len(),
        0 <= parts_at(path) <= path.len(),
{
    if is_exact(path) {
        lemma_part_end(path, true, 4);
        if path.len() >= 8 {
            lemma_share_end(path, true, 8);
        }
    } else if path.len() >= 2 {
        lemma_share_end(path, false, 2);
        if path.len() >= 4 {
            lemma_part_end(path, false, 4);
        }
    }
}

proof fn lemma_kept(path: Text, start: int, n: int)
    requires
        0 <= start <= n,
    ensures
        start <= kept(path, start, n) <= n,
    decreases n,
{
    if n > start && n > 0 {
        if divides(is_exact(path), path[n - 1]) {
            lemma_kept(path, start, n - 1);
        } else if n - 2 >= start {
            lemma_kept(path, start, n - 2);
        }
    }
}

proof fn lemma_before_name_bound(path: Text, start: int, n: int)
    requires
        0 <= start <= n,
    ensures
        start <= before_name(path, start, n) <= n,
    decreases n,
{
    if n > start && n > 0 {
        lemma_before_name_bound(path, start, n - 1);
    }
}

/// The parts of a path are divided by `\` and by `/`, and a drive is a letter and a colon.
pub proof fn law_what_divides_a_path(path: Text, c: char, i: int)
    requires
        0 <= i,
    ensures
        is_separator(c) <==> c == '\\' || c == '/',
        is_drive(path, i) <==> i + 2 <= path.len() && path[i + 1] == ':' && (('a' <= path[i] <= 'z') || ('A' <= path[i]
            <= 'Z')),
{
}

/// A name that divides nothing and is no single dot, with what it takes to be no drive.
pub open spec fn is_name(name: Text) -> bool {
    &&& name.len() > 0
    &&& name != seq!['.']
    &&& forall|i: int| 0 <= i < name.len() ==> #[trigger] name[i] != '\\' && name[i] != '/' && name[i] != ':'
}

/// The folder of a file in the root of a drive is the root, the folder of a name alone is
/// the current one, and a drive's root has none, nor has nothing.
pub proof fn law_folder_of_a_name(letter: char, separator: char, name: Text)
    requires
        'A' <= letter <= 'Z' || 'a' <= letter <= 'z',
        separator == '\\' || separator == '/',
        is_name(name),
    ensures
        parent(seq![letter, ':', separator] + name) == Some(seq![letter, ':', separator]),
        parent(name) == Some(Seq::<char>::empty()),
        parent(seq![letter, ':', separator]) is None,
        parent(seq![letter, ':']) is None,
        parent(Seq::empty()) is None,
{
    let root = seq![letter, ':', separator];
    let path = root + name;
    let n = path.len() as int;
    assert(parts_at(path) == 3);
    assert(path[n - 1] == name.last());
    assert(kept(path, 3, n) == n) by {
        if name.len() == 1 {
            assert(name =~= seq![name[0]]);
        } else {
            assert(path[n - 2] == name[name.len() - 2]);
        }
    }
    lemma_no_divider(path, 3, n);
    assert(path.take(3) =~= root);
    let m = name.len() as int;
    assert(name[0] != '\\');
    assert(prefix_len(name) == 0) by {
        if m >= 2 {
            assert(name[1] != ':' && name[1] != '\\');
        }
    }
    assert(name.last() == name[m - 1]);
    assert(!begins_here(name)) by {
        if m == 1 {
            assert(name =~= seq![name[0]]);
        } else {
            assert(name[1] != '\\');
        }
    }
    assert(parts_at(name) == 0);
    assert(kept(name, 0, m) == m) by {
        if m == 1 {
            assert(name =~= seq![name[0]]);
        } else {
            assert(name[m - 2] != '\\');
        }
    }
    lemma_no_divider(name, 0, m);
    assert(name.take(0) =~= Seq::<char>::empty());
    assert(parts_at(root) == 3);
    assert(parts_at(seq![letter, ':']) == 2);
    assert(parts_at(Seq::<char>::empty()) == 0);
}

/// Where nothing divides the end of a path, all of it is its last part.
proof fn lemma_no_divider(path: Text, start: int, n: int)
    requires
        0 <= start <= n <= path.len(),
        forall|i: int| start <= i < n ==> !divides(is_exact(path), #[trigger] path[i]),
    ensures
        before_name(path, start, n) == start,
    decreases n,
{
    if n > start {
        lemma_no_divider(path, start, n - 1);
    }
}

/// The folder of a file in a folder below the current one is that folder.
pub proof fn law_folder_below_the_current_one(folder: Text, separator: char, name: Text)
    requires
        is_name(folder),
        separator == '\\' || separator == '/',
        is_name(name),
    ensures
        parent(folder + seq![separator] + name) == Some(folder),
{
    let path = folder + seq![separator] + name;
    let n = path.len() as int;
    let k = folder.len() as int;
    assert(path[0] == folder[0]);
    assert(prefix_len(path) == 0) by {
        if k >= 2 {
            assert(path[1] == folder[1]);
        } else {
            assert(path[1] == separator);
        }
    }
    assert(!begins_here(path)) by {
        if k == 1 {
            assert(folder =~= seq![folder[0]]);
        } else {
            assert(path[1] == folder[1]);
        }
    }
    assert(parts_at(path) == 0);
    assert(path[n - 1] == name[name.len() - 1]);
    assert(kept(path, 0, n) == n) by {
        if name.len() == 1 {
            assert(name =~= seq![name[0]]);
        } else {
            assert(path[n - 2] == name[name.len() - 2]);
        }
    }
    assert(path[k] == separator);
    assert forall|i: int| k < i < n implies !divides(is_exact(path), #[trigger] path[i]) by {
        assert(path[i] == name[i - k - 1]);
    }
    lemma_before_name(path, 0, k, n);
    assert(path[k - 1] == folder[k - 1]);
    assert(kept(path, 0, k) == k) by {
        if k == 1 {
            assert(folder =~= seq![folder[0]]);
        } else {
            assert(path[k - 2] == folder[k - 2]);
        }
    }
    assert(path.take(k) =~= folder);
}

/// The folder of a file in the root of a share is the root of the share, which has none.
pub proof fn law_folder_on_a_share(server: Text, share: Text, name: Text)
    requires
        is_name(server),
        server != seq!['?'],
        is_name(share),
        is_name(name),
    ensures
        ({
            let root = seq!['\\', '\\'] + server + seq!['\\'] + share + seq!['\\'];
            &&& parent(root + name) == Some(root)
            &&& parent(root) is None
        }),
{
    let root = seq!['\\', '\\'] + server + seq!['\\'] + share + seq!['\\'];
    let path = root + name;
    let b = 2 + server.len() as int + 1 + share.len();
    let n = path.len() as int;
    lemma_volume_of_a_share(server, share, name);
    lemma_volume_of_a_share(server, share, Seq::empty());
    assert(root + Seq::<char>::empty() =~= root);
    assert(path[b] == '\\' && root[b] == '\\');
    assert(parts_at(path) == b + 1);
    assert(parts_at(root) == b + 1);
    assert(path[n - 1] == name[name.len() - 1]);
    assert(kept(path, b + 1, n) == n) by {
        if name.len() == 1 {
            assert(name =~= seq![name[0]]);
        } else {
            assert(path[n - 2] == name[name.len() - 2]);
        }
    }
    assert forall|i: int| b + 1 <= i < n implies !divides(is_exact(path), #[trigger] path[i]) by {
        assert(path[i] == name[i - b - 1]);
    }
    lemma_no_divider(path, b + 1, n);
    assert(path.take(b + 1) =~= root);
}

/// The volume of a path on a share is the server and the share.
proof fn lemma_volume_of_a_share(server: Text, share: Text, name: Text)
    requires
        is_name(server),
        server != seq!['?'],
        is_name(share),
    ensures
        ({
            let path = seq!['\\', '\\'] + server + seq!['\\'] + share + seq!['\\'] + name;
            prefix_len(path) == 2 + server.len() + 1 + share.len() && !is_exact(path)
        }),
{
    let path = seq!['\\', '\\'] + server + seq!['\\'] + share + seq!['\\'] + name;
    let a = 2 + server.len() as int;
    let b = a + 1 + share.len();
    assert(path[0] == '\\' && path[1] == '\\');
    assert(path[2] == server[0]);
    assert(!is_exact(path) && !(path[2] == '.' && is_separator(path[3]))) by {
        if server.len() == 1 {
            assert(server =~= seq![server[0]]);
        } else {
            assert(path[3] == server[1]);
        }
    }
    assert forall|i: int| 2 <= i < a implies !divides(false, #[trigger] path[i]) by {
        assert(path[i] == server[i - 2]);
    }
    assert(path[a] == '\\');
    lemma_part_end_is(path, false, 2, a);
    assert forall|i: int| a + 1 <= i < b implies !divides(false, #[trigger] path[i]) by {
        assert(path[i] == share[i - a - 1]);
    }
    assert(path[b] == '\\');
    lemma_part_end_is(path, false, a + 1, b);
}

/// A part ends where the next divider stands.
proof fn lemma_part_end_is(path: Text, exact: bool, i: int, k: int)
    requires
        0 <= i <= k < path.len(),
        divides(exact, path[k]),
        forall|j: int| i <= j < k ==> !divides(exact, #[trigger] path[j]),
    ensures
        part_end(path, exact, i) == k,
    decreases k - i,
{
    if i < k {
        lemma_part_end_is(path, exact, i + 1, k);
    }
}

/// Separators behind a name, and more than one in front of it, count as one, and a single dot
/// between two separators as nothing.
pub proof fn law_further_separators_mean_nothing(letter: char, folder: Text, name: Text)
    requires
        'A' <= letter <= 'Z' || 'a' <= letter <= 'z',
        is_name(folder),
        is_name(name),
    ensures
        ({
            let base = seq![letter, ':', '\\'] + folder;
            &&& parent(base + seq!['\\'] + name + seq!['\\']) == Some(base)
            &&& parent(base + seq!['\\', '/'] + name) == Some(base)
            &&& parent(base + seq!['\\', '.', '\\'] + name) == Some(base)
            &&& parent(base + seq!['\\'] + name + seq!['\\', '.']) == Some(base)
        }),
{
    let base = seq![letter, ':', '\\'] + folder;
    lemma_folder_with(letter, folder, seq!['\\'], name, Seq::empty());
    lemma_folder_with(letter, folder, seq!['\\'], name, seq!['\\']);
    lemma_folder_with(letter, folder, seq!['\\', '/'], name, Seq::empty());
    lemma_folder_with(letter, folder, seq!['\\', '.', '\\'], name, Seq::empty());
    lemma_folder_with(letter, folder, seq!['\\'], name, seq!['\\', '.']);
    assert(base + seq!['\\', '/'] + name + Seq::<char>::empty() =~= base + seq!['\\', '/'] + name);
    assert(base + seq!['\\', '.', '\\'] + name + Seq::<char>::empty() =~= base + seq!['\\', '.', '\\'] + name);
}

/// So it is with each of these between the names and behind them.
#[verifier::spinoff_prover]
#[verifier::rlimit(30)]
proof fn lemma_folder_with(letter: char, folder: Text, between: Text, name: Text, behind: Text)
    requires
        'A' <= letter <= 'Z' || 'a' <= letter <= 'z',
        is_name(folder),
        is_name(name),
        between == seq!['\\'] || between == seq!['\\', '/'] || between == seq!['\\', '.', '\\'],
        behind == Seq::<char>::empty() || behind == seq!['\\'] || behind == seq!['\\', '.'],
    ensures
        parent(seq![letter, ':', '\\'] + folder + between + name + behind) == Some(seq![letter, ':', '\\'] + folder),
{
    let base = seq![letter, ':', '\\'] + folder;
    let path = base + between + name + behind;
    let n = path.len() as int;
    let k = base.len() as int;
    let a = k + between.len();
    let e = a + name.len();
    assert(path[0] == letter && path[1] == ':' && path[2] == '\\');
    assert(parts_at(path) == 3);
    assert forall|i: int| a <= i < e implies !is_separator(#[trigger] path[i]) by {
        assert(path[i] == name[i - a]);
    }
    assert(path[e - 1] == name[name.len() - 1]);
    reveal_with_fuel(kept, 4);
    assert(kept(path, 3, e) == e) by {
        if name.len() == 1 {
            assert(name =~= seq![name[0]]);
        } else {
            assert(path[e - 2] == name[name.len() - 2]);
        }
    }
    assert(kept(path, 3, n) == e) by {
        if behind.len() == 1 {
            assert(path[e] == '\\');
        } else if behind.len() == 2 {
            assert(path[e] == '\\' && path[e + 1] == '.');
        }
    }
    assert(is_separator(path[a - 1])) by {
        assert(path[a - 1] == between[between.len() - 1]);
    }
    lemma_before_name(path, 3, a - 1, e);
    assert(path[k - 1] == folder[folder.len() - 1]);
    assert(kept(path, 3, k) == k) by {
        if folder.len() == 1 {
            assert(folder =~= seq![folder[0]]);
            assert(path[k - 1] == folder[0]);
        } else {
            assert(path[k - 2] == folder[folder.len() - 2]);
        }
    }
    assert(kept(path, 3, a - 1) == k) by {
        if between.len() == 2 {
            assert(path[k] == '\\');
        } else if between.len() == 3 {
            assert(path[k] == '\\' && path[k + 1] == '.');
        }
    }
    assert(path.take(k) =~= base);
}

/// In a path behind `\\?\` only `\` divides, and nothing else has a meaning.
pub proof fn law_folder_of_an_exact_path(letter: char, folder: Text, name: Text)
    requires
        'A' <= letter <= 'Z' || 'a' <= letter <= 'z',
        folder.len() > 0,
        !folder.contains('\\'),
        name.len() > 0,
        !name.contains('\\'),
    ensures
        ({
            let root = seq!['\\', '\\', '?', '\\', letter, ':', '\\'];
            &&& parent(root + folder + seq!['\\'] + name) == Some(root + folder)
            &&& parent(root + folder) == Some(root)
            &&& parent(root) is None
        }),
{
    let root = seq!['\\', '\\', '?', '\\', letter, ':', '\\'];
    let base = root + folder;
    let path = base + seq!['\\'] + name;
    let n = path.len() as int;
    let k = base.len() as int;
    assert(is_exact(path) && is_exact(base) && is_exact(root));
    assert(prefix_len(path) == 6 && prefix_len(base) == 6 && prefix_len(root) == 6);
    assert(parts_at(path) == 7 && parts_at(base) == 7 && parts_at(root) == 7);
    assert forall|i: int| k < i < n implies path[i] != '\\' by {
        assert(path[i] == name[i - k - 1]);
        assert(name.contains(name[i - k - 1]));
    }
    assert forall|i: int| 7 <= i < k implies path[i] != '\\' && base[i] != '\\' by {
        assert(path[i] == folder[i - 7] && base[i] == folder[i - 7]);
        assert(folder.contains(folder[i - 7]));
    }
    assert(path[n - 1] != '\\');
    assert(kept(path, 7, n) == n);
    assert(path[k] == '\\');
    lemma_before_exact_name(path, 7, k, n);
    assert(path[k - 1] != '\\');
    assert(kept(path, 7, k) == k);
    assert(path.take(k) =~= base);
    assert(base[k - 1] != '\\');
    assert(kept(base, 7, k) == k);
    lemma_no_divider(base, 7, k);
    assert(base.take(7) =~= root);
}

proof fn lemma_before_exact_name(path: Text, start: int, k: int, n: int)
    requires
        0 <= start <= k < n <= path.len(),
        is_exact(path),
        path[k] == '\\',
        forall|i: int| k < i < n ==> path[i] != '\\',
    ensures
        before_name(path, start, n) == k,
    decreases n,
{
    if k + 1 < n {
        lemma_before_exact_name(path, start, k, n - 1);
    }
}

/// The folder of a file in the root of a volume is that root, which has none.
proof fn lemma_folder_in_a_volume(root: Text, name: Text)
    requires
        root.len() > 0,
        root.last() == '\\',
        prefix_len(root) == root.len() - 1,
        prefix_len(root + name) == root.len() - 1,
        is_name(name),
    ensures
        parent(root + name) == Some(root),
        parent(root) is None,
{
    let path = root + name;
    let b = root.len() - 1;
    let n = path.len() as int;
    assert(path[b] == '\\' && root[b] == '\\');
    assert(parts_at(path) == b + 1);
    assert(parts_at(root) == b + 1);
    assert(path[n - 1] == name[name.len() - 1]);
    assert(kept(path, b + 1, n) == n) by {
        if name.len() == 1 {
            assert(name =~= seq![name[0]]);
        } else {
            assert(path[n - 2] == name[name.len() - 2]);
        }
    }
    assert forall|i: int| b + 1 <= i < n implies !divides(is_exact(path), #[trigger] path[i]) by {
        assert(path[i] == name[i - b - 1]);
    }
    lemma_no_divider(path, b + 1, n);
    assert(path.take(b + 1) =~= root);
}

/// Behind `\\.\` stands a device and behind `\\?\` a volume, and behind `\\?\UNC\` a server
/// and a share. The folder of a file in its root is that root, which has none.
pub proof fn law_folder_on_a_device(device: Text, server: Text, share: Text, name: Text)
    requires
        is_name(device),
        device != "UNC"@,
        is_name(server),
        is_name(share),
        is_name(name),
    ensures
        ({
            let root = seq!['\\', '\\', '.', '\\'] + device + seq!['\\'];
            &&& parent(root + name) == Some(root)
            &&& parent(root) is None
        }),
        ({
            let root = seq!['\\', '\\', '?', '\\'] + device + seq!['\\'];
            &&& parent(root + name) == Some(root)
            &&& parent(root) is None
        }),
        ({
            let root = seq!['\\', '\\', '?', '\\', 'U', 'N', 'C', '\\'] + server + seq!['\\'] + share + seq!['\\'];
            &&& parent(root + name) == Some(root)
            &&& parent(root) is None
        }),
{
    let a = seq!['\\', '\\', '.', '\\'] + device + seq!['\\'];
    lemma_volume_of_a_device(device, Seq::empty());
    lemma_volume_of_a_device(device, name);
    assert(a + Seq::<char>::empty() =~= a);
    lemma_folder_in_a_volume(a, name);
    let b = seq!['\\', '\\', '?', '\\'] + device + seq!['\\'];
    lemma_exact_volume(device, Seq::empty());
    lemma_exact_volume(device, name);
    assert(b + Seq::<char>::empty() =~= b);
    lemma_folder_in_a_volume(b, name);
    let c = seq!['\\', '\\', '?', '\\', 'U', 'N', 'C', '\\'] + server + seq!['\\'] + share + seq!['\\'];
    lemma_exact_share(server, share, Seq::empty());
    lemma_exact_share(server, share, name);
    assert(c + Seq::<char>::empty() =~= c);
    lemma_folder_in_a_volume(c, name);
}

proof fn lemma_volume_of_a_device(device: Text, name: Text)
    requires
        is_name(device),
    ensures
        prefix_len(seq!['\\', '\\', '.', '\\'] + device + seq!['\\'] + name) == 4 + device.len(),
{
    let path = seq!['\\', '\\', '.', '\\'] + device + seq!['\\'] + name;
    let k = 4 + device.len() as int;
    assert(path[0] == '\\' && path[1] == '\\' && path[2] == '.' && path[3] == '\\' && path[k] == '\\');
    assert forall|i: int| 4 <= i < k implies !divides(false, #[trigger] path[i]) by {
        assert(path[i] == device[i - 4]);
    }
    lemma_part_end_is(path, false, 4, k);
}

proof fn lemma_exact_volume(device: Text, name: Text)
    requires
        is_name(device),
        device != "UNC"@,
    ensures
        prefix_len(seq!['\\', '\\', '?', '\\'] + device + seq!['\\'] + name) == 4 + device.len(),
{
    let path = seq!['\\', '\\', '?', '\\'] + device + seq!['\\'] + name;
    let k = 4 + device.len() as int;
    assert(path[0] == '\\' && path[1] == '\\' && path[2] == '?' && path[3] == '\\' && path[k] == '\\');
    assert forall|i: int| 4 <= i < k implies !is_separator(#[trigger] path[i]) && path[i] == device[i - 4] by {
        assert(path[i] == device[i - 4]);
    }
    lemma_part_end_is(path, true, 4, k);
    assert(!(path.len() >= 8 && path[4] == 'U' && path[5] == 'N' && path[6] == 'C' && is_separator(path[7]))) by {
        reveal_strlit("UNC");
        if device.len() == 3 {
            if path[4] == 'U' && path[5] == 'N' && path[6] == 'C' {
                assert(device =~= "UNC"@);
            }
        } else if device.len() > 3 {
            assert(!is_separator(path[7]));
        }
    }
    assert(!is_drive(path, 4)) by {
        if device.len() >= 2 {
            assert(path[5] == device[1]);
        }
    }
}

proof fn lemma_exact_share(server: Text, share: Text, name: Text)
    requires
        is_name(server),
        is_name(share),
    ensures
        prefix_len(
            seq!['\\', '\\', '?', '\\', 'U', 'N', 'C', '\\'] + server + seq!['\\'] + share + seq!['\\'] + name,
        ) == 8 + server.len() + 1 + share.len(),
{
    let path = seq!['\\', '\\', '?', '\\', 'U', 'N', 'C', '\\'] + server + seq!['\\'] + share + seq!['\\'] + name;
    let a = 8 + server.len() as int;
    let b = a + 1 + share.len();
    assert(path[0] == '\\' && path[1] == '\\' && path[2] == '?' && path[3] == '\\');
    assert(path[4] == 'U' && path[5] == 'N' && path[6] == 'C' && path[7] == '\\');
    assert(path[a] == '\\' && path[b] == '\\');
    assert forall|i: int| 8 <= i < a implies !divides(true, #[trigger] path[i]) by {
        assert(path[i] == server[i - 8]);
    }
    lemma_part_end_is(path, true, 8, a);
    assert forall|i: int| a + 1 <= i < b implies !divides(true, #[trigger] path[i]) by {
        assert(path[i] == share[i - a - 1]);
    }
    lemma_part_end_is(path, true, a + 1, b);
}

/// A server without the name of a share is a volume of its own behind `\\?\UNC\`.
pub proof fn law_folder_on_a_server(server: Text, name: Text)
    requires
        is_name(server),
        is_name(name),
    ensures
        ({
            let root = seq!['\\', '\\', '?', '\\', 'U', 'N', 'C', '\\'] + server + seq!['\\'];
            &&& parent(root + seq!['\\'] + name) == Some(root)
            &&& parent(root) is None
        }),
{
    let root = seq!['\\', '\\', '?', '\\', 'U', 'N', 'C', '\\'] + server + seq!['\\'];
    let path = root + seq!['\\'] + name;
    let a = 8 + server.len() as int;
    let n = path.len() as int;
    assert(path[0] == '\\' && path[1] == '\\' && path[2] == '?' && path[3] == '\\');
    assert(path[4] == 'U' && path[5] == 'N' && path[6] == 'C' && path[7] == '\\');
    assert(path[a] == '\\' && path[a + 1] == '\\' && root[a] == '\\');
    assert forall|i: int| 8 <= i < a implies !divides(true, #[trigger] path[i]) && !divides(true, #[trigger] root[i]) by {
        assert(path[i] == server[i - 8] && root[i] == server[i - 8]);
    }
    lemma_part_end_is(path, true, 8, a);
    lemma_part_end_is(root, true, 8, a);
    assert(part_end(path, true, a + 1) == a + 1);
    assert(part_end(root, true, a + 1) == a + 1);
    assert(prefix_len(path) == a && prefix_len(root) == a);
    assert(parts_at(path) == a + 1 && parts_at(root) == a + 1);
    assert forall|i: int| a + 1 < i < n implies path[i] != '\\' by {
        assert(path[i] == name[i - a - 2]);
    }
    assert(path[n - 1] == name[name.len() - 1]);
    assert(kept(path, a + 1, n) == n);
    lemma_before_exact_name(path, a + 1, a + 1, n);
    assert(path.take(a + 1) =~= root);
}

} // verus!
