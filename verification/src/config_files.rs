//! Where the configuration file is looked for: the user's configuration
//! directory first, then the system directories, as the XDG base directory
//! variables name them. Paths are byte strings, as Unix paths are.

use vstd::prelude::*;

verus! {

/// The `/` that separates path components.
pub const SEPARATOR: u8 = 0x2f;

/// The `:` that separates the directories of a search path.
pub const LIST_SEPARATOR: u8 = 0x3a;

/// The configuration file, relative to a configuration directory: `vellum/config.toml`.
pub open spec fn config_file() -> Seq<u8> {
    seq![
        0x76u8, 0x65, 0x6c, 0x6c, 0x75, 0x6d, 0x2f, 0x63, 0x6f, 0x6e, 0x66, 0x69, 0x67, 0x2e,
        0x74, 0x6f, 0x6d, 0x6c,
    ]
}

/// The user's configuration directory below the home directory: `.config`.
pub open spec fn dot_config() -> Seq<u8> {
    seq![0x2eu8, 0x63, 0x6f, 0x6e, 0x66, 0x69, 0x67]
}

/// The system configuration directory when none is named: `/etc/xdg`.
pub open spec fn etc_xdg() -> Seq<u8> {
    seq![0x2fu8, 0x65, 0x74, 0x63, 0x2f, 0x78, 0x64, 0x67]
}

/// A path is absolute when it starts at the root.
pub open spec fn is_absolute(path: Seq<u8>) -> bool {
    path.len() > 0 && path[0] == SEPARATOR
}

/// `relative` below `dir`, with one separator between them unless `dir`
/// already ends in one.
pub open spec fn join(dir: Seq<u8>, relative: Seq<u8>) -> Seq<u8> {
    if dir.len() > 0 && dir.last() != SEPARATOR {
        dir + seq![SEPARATOR] + relative
    } else {
        dir + relative
    }
}

/// The pieces of a search path between its `:` separators, empty pieces
/// included; a path without separators is one piece.
pub open spec fn split_list(list: Seq<u8>) -> Seq<Seq<u8>>
    decreases list.len(),
{
    if list.len() == 0 {
        seq![Seq::<u8>::empty()]
    } else {
        let pieces = split_list(list.drop_last());
        if list.last() == LIST_SEPARATOR {
            pieces.push(Seq::<u8>::empty())
        } else {
            pieces.update(pieces.len() - 1, pieces.last().push(list.last()))
        }
    }
}

/// The configuration files in the absolute directories among `dirs`, in order.
pub open spec fn files_in(dirs: Seq<Seq<u8>>) -> Seq<Seq<u8>>
    decreases dirs.len(),
{
    if dirs.len() == 0 {
        Seq::<Seq<u8>>::empty()
    } else {
        let before = files_in(dirs.drop_last());
        if is_absolute(dirs.last()) {
            before.push(join(dirs.last(), config_file()))
        } else {
            before
        }
    }
}

/// The user's configuration file: below `XDG_CONFIG_HOME` when that is
/// absolute, else below `$HOME/.config` when the home directory is absolute.
pub open spec fn user_config_files(
    xdg_config_home: Option<Seq<u8>>,
    home: Option<Seq<u8>>,
) -> Seq<Seq<u8>> {
    match xdg_config_home {
        Some(dir) if is_absolute(dir) => seq![join(dir, config_file())],
        _ => match home {
            Some(dir) if is_absolute(dir) => seq![join(join(dir, dot_config()), config_file())],
            _ => Seq::<Seq<u8>>::empty(),
        },
    }
}

/// The system configuration files: in each absolute directory of a
/// non-empty `XDG_CONFIG_DIRS`, else in `/etc/xdg`.
pub open spec fn system_config_files(xdg_config_dirs: Option<Seq<u8>>) -> Seq<Seq<u8>> {
    match xdg_config_dirs {
        Some(list) if list.len() > 0 => files_in(split_list(list)),
        _ => seq![join(etc_xdg(), config_file())],
    }
}

/// Every place the configuration file is looked for, the first found wins.
pub open spec fn config_paths_spec(
    xdg_config_home: Option<Seq<u8>>,
    home: Option<Seq<u8>>,
    xdg_config_dirs: Option<Seq<u8>>,
) -> Seq<Seq<u8>> {
    user_config_files(xdg_config_home, home) + system_config_files(xdg_config_dirs)
}

/// The view of an optional byte string.
pub open spec fn bytes_view(value: Option<&[u8]>) -> Option<Seq<u8>> {
    match value {
        Some(v) => Some(v@),
        None => None,
    }
}

const CONFIG_FILE: [u8; 18] = [
    0x76, 0x65, 0x6c, 0x6c, 0x75, 0x6d, 0x2f, 0x63, 0x6f, 0x6e, 0x66, 0x69, 0x67, 0x2e, 0x74, 0x6f,
    0x6d, 0x6c,
];

const DOT_CONFIG: [u8; 7] = [0x2e, 0x63, 0x6f, 0x6e, 0x66, 0x69, 0x67];

const ETC_XDG: [u8; 8] = [0x2f, 0x65, 0x74, 0x63, 0x2f, 0x78, 0x64, 0x67];

/// Appends `bytes` to `out`.
fn append(out: &mut Vec<u8>, bytes: &[u8])
    ensures
        final(out)@ == old(out)@ + bytes@,
{
    let ghost start = out@;
    let mut i: usize = 0;
    while i < bytes.len()
        invariant
            0 <= i <= bytes@.len(),
            out@ == start + bytes@.take(i as int),
        decreases bytes@.len() - i,
    {
        out.push(bytes[i]);
        i += 1;
        assert(out@ =~= start + bytes@.take(i as int));
    }
    assert(bytes@.take(bytes@.len() as int) =~= bytes@);
}

/// `relative` below `dir`.
pub fn join_path(dir: &[u8], relative: &[u8]) -> (path: Vec<u8>)
    ensures
        path@ == join(dir@, relative@),
{
    let mut path: Vec<u8> = Vec::new();
    append(&mut path, dir);
    if dir.len() > 0 && dir[dir.len() - 1] != SEPARATOR {
        path.push(SEPARATOR);
    }
    append(&mut path, relative);
    assert(path@ =~= join(dir@, relative@));
    path
}

/// Whether `path` starts at the root.
pub fn absolute(path: &[u8]) -> (absolute: bool)
    ensures
        absolute == is_absolute(path@),
{
    path.len() > 0 && path[0] == SEPARATOR
}

/// Splitting a list one byte longer: a separator starts a new piece, any
/// other byte extends the last piece.
proof fn lemma_split_step(list: Seq<u8>, i: int)
    requires
        0 <= i < list.len(),
    ensures
        split_list(list.take(i + 1)) == if list[i] == LIST_SEPARATOR {
            split_list(list.take(i)).push(Seq::<u8>::empty())
        } else {
            split_list(list.take(i)).update(
                split_list(list.take(i)).len() - 1,
                split_list(list.take(i)).last().push(list[i]),
            )
        },
        split_list(list.take(i)).len() >= 1,
{
    assert(list.take(i + 1).drop_last() =~= list.take(i));
    lemma_split_nonempty(list.take(i));
}

/// A list always splits into at least one piece.
proof fn lemma_split_nonempty(list: Seq<u8>)
    ensures
        split_list(list).len() >= 1,
    decreases list.len(),
{
    if list.len() > 0 {
        lemma_split_nonempty(list.drop_last());
    }
}

/// The configuration files in the directories of a search path.
fn files_in_list(list: &[u8]) -> (files: Vec<Vec<u8>>)
    ensures
        files@.map_values(|f: Vec<u8>| f@) == files_in(split_list(list@)),
{
    let mut files: Vec<Vec<u8>> = Vec::new();
    let mut piece: Vec<u8> = Vec::new();
    let mut i: usize = 0;
    assert(list@.take(0) =~= Seq::<u8>::empty());
    while i < list.len()
        invariant
            0 <= i <= list@.len(),
            split_list(list@.take(i as int)).len() >= 1,
            piece@ == split_list(list@.take(i as int)).last(),
            files@.map_values(|f: Vec<u8>| f@) == files_in(
                split_list(list@.take(i as int)).drop_last(),
            ),
        decreases list@.len() - i,
    {
        proof {
            lemma_split_step(list@, i as int);
        }
        let ghost pieces = split_list(list@.take(i as int));
        if list[i] == LIST_SEPARATOR {
            if absolute(piece.as_slice()) {
                let file = join_path(piece.as_slice(), CONFIG_FILE.as_slice());
                files.push(file);
            }
            proof {
                let next = pieces.push(Seq::<u8>::empty());
                assert(next.drop_last() =~= pieces);
                assert(pieces =~= pieces.drop_last().push(pieces.last()));
            }
            piece = Vec::new();
        } else {
            piece.push(list[i]);
            proof {
                let next = pieces.update(pieces.len() - 1, pieces.last().push(list@[i as int]));
                assert(next.drop_last() =~= pieces.drop_last());
            }
        }
        assert(files@.map_values(|f: Vec<u8>| f@) =~= files_in(
            split_list(list@.take(i + 1)).drop_last(),
        ));
        i += 1;
    }
    assert(list@.take(list@.len() as int) =~= list@);
    let ghost pieces = split_list(list@);
    if absolute(piece.as_slice()) {
        let file = join_path(piece.as_slice(), CONFIG_FILE.as_slice());
        files.push(file);
    }
    proof {
        assert(pieces =~= pieces.drop_last().push(pieces.last()));
    }
    assert(files@.map_values(|f: Vec<u8>| f@) =~= files_in(pieces));
    files
}

/// Every place the configuration file is looked for, in order, given the
/// values of `XDG_CONFIG_HOME`, `HOME` and `XDG_CONFIG_DIRS`.
pub fn config_paths(
    xdg_config_home: Option<&[u8]>,
    home: Option<&[u8]>,
    xdg_config_dirs: Option<&[u8]>,
) -> (paths: Vec<Vec<u8>>)
    ensures
        paths@.map_values(|p: Vec<u8>| p@) == config_paths_spec(
            bytes_view(xdg_config_home),
            bytes_view(home),
            bytes_view(xdg_config_dirs),
        ),
{
    let mut paths: Vec<Vec<u8>> = Vec::new();
    let user = match xdg_config_home {
        Some(dir) if absolute(dir) => Some(join_path(dir, CONFIG_FILE.as_slice())),
        _ => match home {
            Some(dir) if absolute(dir) => {
                let config = join_path(dir, DOT_CONFIG.as_slice());
                Some(join_path(config.as_slice(), CONFIG_FILE.as_slice()))
            },
            _ => None,
        },
    };
    match user {
        Some(file) => paths.push(file),
        None => {},
    }
    let ghost user_paths = paths@.map_values(|p: Vec<u8>| p@);
    assert(user_paths =~= user_config_files(bytes_view(xdg_config_home), bytes_view(home)));
    let mut system = match xdg_config_dirs {
        Some(list) if list.len() > 0 => files_in_list(list),
        _ => {
            let mut files: Vec<Vec<u8>> = Vec::new();
            files.push(join_path(ETC_XDG.as_slice(), CONFIG_FILE.as_slice()));
            files
        },
    };
    let ghost system_paths = system@.map_values(|p: Vec<u8>| p@);
    assert(system_paths =~= system_config_files(bytes_view(xdg_config_dirs)));
    let ghost before = paths@;
    let ghost moved = system@;
    paths.append(&mut system);
    assert(paths@ =~= before + moved);
    assert(paths@.map_values(|p: Vec<u8>| p@) =~= user_paths + system_paths);
    paths
}

} // verus!
