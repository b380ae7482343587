//! The requests that sync work sends to rclone: each function gives the RPC
//! method and the JSON input for one operation on a remote.

use vstd::prelude::*;
use super::{RcloneListFilter, RcloneRequest};
use crate::json::{
    field_views, json_bool, json_bool_text, json_object, json_object_text, json_string,
    json_string_text, text_before,
};
use crate::text::{
    chars_of, lemma_trim_by_ends, lemma_trim_by_idempotent, lemma_trim_end_split_by,
    lemma_trim_start_split_by, push_char, slice_range, string_of, trim_by, trim_end_by,
    trim_range, trim_start_by, trimmed_char,
};

verus! {

/// The object keys written here, in the order that serde_json writes them.
proof fn lemma_request_keys_in_order()
    ensures
        text_before("fs"@, "opt"@),
        text_before("opt"@, "remote"@),
        text_before("fs"@, "remote"@),
        text_before("dirsOnly"@, "recurse"@),
        text_before("filesOnly"@, "recurse"@),
        text_before("dstFs"@, "dstRemote"@),
        text_before("dstRemote"@, "srcFs"@),
        text_before("srcFs"@, "srcRemote"@),
{
    reveal_strlit("dirsOnly");
    reveal_strlit("dstFs");
    reveal_strlit("dstRemote");
    reveal_strlit("filesOnly");
    reveal_strlit("fs");
    reveal_strlit("opt");
    reveal_strlit("recurse");
    reveal_strlit("remote");
    reveal_strlit("srcFs");
    reveal_strlit("srcRemote");
    reveal_with_fuel(text_before, 5);
}

/// Whether a remote name ends with a colon, which names a remote's root in
/// rclone and must not be written by the caller.
pub open spec fn ends_with_colon(s: Seq<char>) -> bool {
    s.len() > 0 && s.last() == ':'
}

/// The file system that rclone addresses for a remote: its name and a colon.
pub open spec fn remote_fs(remote_name: Seq<char>) -> Seq<char> {
    remote_name.push(':')
}

/// A path without its leading and trailing slashes.
pub open spec fn stripped(path: Seq<char>) -> Seq<char> {
    trim_by(path, true)
}

/// The input of the operations on one path of a remote.
pub open spec fn path_input(remote_name: Seq<char>, path: Seq<char>) -> Seq<char> {
    json_object(
        seq![
            ("fs"@, json_string(remote_fs(remote_name))),
            ("remote"@, json_string(stripped(path))),
        ],
    )
}

/// The file system name of a remote: its name followed by a colon.
pub fn get_remote_name(remote: &str) -> (fs: String)
    requires
        !ends_with_colon(remote@),
    ensures
        fs@ == remote_fs(remote@),
{
    let mut fs = remote.to_owned();
    push_char(&mut fs, ':');
    fs
}

/// A path without its leading and trailing slashes.
pub fn strip_slashes(path: &str) -> (s: String)
    ensures
        s@ == stripped(path@),
{
    let cs = chars_of(path);
    let (a, b) = trim_range(&cs, true);
    string_of(&slice_range(&cs, a, b))
}

fn common(method: &str, remote_name: &str, path: &str) -> (r: RcloneRequest)
    requires
        !ends_with_colon(remote_name@),
    ensures
        r.method@ == method@,
        r.input@ == path_input(remote_name@, path@),
{
    let fs = get_remote_name(remote_name);
    let remote = strip_slashes(path);
    let fields = vec![("fs", json_string_text(fs.as_str())), ("remote", json_string_text(remote.as_str()))];
    assert(field_views(fields@) =~= seq![
        ("fs"@, json_string(remote_fs(remote_name@))),
        ("remote"@, json_string(stripped(path@))),
    ]);
    proof {
        lemma_request_keys_in_order();
    }
    RcloneRequest { method: method.to_owned(), input: json_object_text(&fields) }
}

/// The request that deletes the configuration of a remote.
pub fn delete_config(remote_name: &str) -> (r: RcloneRequest)
    ensures
        r.method@ == "config/delete"@,
        r.input@ == json_object(seq![("name"@, json_string(remote_name@))]),
{
    let fields = vec![("name", json_string_text(remote_name))];
    assert(field_views(fields@) =~= seq![("name"@, json_string(remote_name@))]);
    RcloneRequest { method: "config/delete".to_owned(), input: json_object_text(&fields) }
}

/// The request that gets statistics about a file or folder.
pub fn stat(remote_name: &str, path: &str) -> (r: RcloneRequest)
    requires
        !ends_with_colon(remote_name@),
    ensures
        r.method@ == "operations/stat"@,
        r.input@ == path_input(remote_name@, path@),
{
    common("operations/stat", remote_name, path)
}

/// The options of a listing: whether to descend into folders, and which kind
/// of items to keep.
pub open spec fn list_options(recursive: bool, filter: RcloneListFilter) -> Seq<char> {
    match filter {
        RcloneListFilter::All => json_object(seq![("recurse"@, json_bool(recursive))]),
        RcloneListFilter::Dirs => json_object(
            seq![("dirsOnly"@, json_bool(true)), ("recurse"@, json_bool(recursive))],
        ),
        RcloneListFilter::Files => json_object(
            seq![("filesOnly"@, json_bool(true)), ("recurse"@, json_bool(recursive))],
        ),
    }
}

/// The input of a listing.
pub open spec fn list_input(
    remote_name: Seq<char>,
    path: Seq<char>,
    recursive: bool,
    filter: RcloneListFilter,
) -> Seq<char> {
    json_object(
        seq![
            ("fs"@, json_string(remote_fs(remote_name))),
            ("opt"@, list_options(recursive, filter)),
            ("remote"@, json_string(stripped(path))),
        ],
    )
}

/// The request that lists the files and folders in a path.
pub fn list(remote_name: &str, path: &str, recursive: bool, filter: RcloneListFilter) -> (r:
    RcloneRequest)
    requires
        !ends_with_colon(remote_name@),
    ensures
        r.method@ == "operations/list"@,
        r.input@ == list_input(remote_name@, path@, recursive, filter),
{
    let opts = match filter {
        RcloneListFilter::All => {
            let fields = vec![("recurse", json_bool_text(recursive))];
            assert(field_views(fields@) =~= seq![("recurse"@, json_bool(recursive))]);
            json_object_text(&fields)
        },
        RcloneListFilter::Dirs => {
            let fields = vec![("dirsOnly", json_bool_text(true)), ("recurse", json_bool_text(recursive))];
            assert(field_views(fields@) =~= seq![
                ("dirsOnly"@, json_bool(true)),
                ("recurse"@, json_bool(recursive)),
            ]);
            proof {
                lemma_request_keys_in_order();
            }
            json_object_text(&fields)
        },
        RcloneListFilter::Files => {
            let fields = vec![("filesOnly", json_bool_text(true)), ("recurse", json_bool_text(recursive))];
            assert(field_views(fields@) =~= seq![
                ("filesOnly"@, json_bool(true)),
                ("recurse"@, json_bool(recursive)),
            ]);
            proof {
                lemma_request_keys_in_order();
            }
            json_object_text(&fields)
        },
    };
    let fs = get_remote_name(remote_name);
    let remote = strip_slashes(path);
    let fields = vec![
        ("fs", json_string_text(fs.as_str())),
        ("opt", opts),
        ("remote", json_string_text(remote.as_str())),
    ];
    assert(field_views(fields@) =~= seq![
        ("fs"@, json_string(remote_fs(remote_name@))),
        ("opt"@, list_options(recursive, filter)),
        ("remote"@, json_string(stripped(path@))),
    ]);
    proof {
        lemma_request_keys_in_order();
    }
    RcloneRequest { method: "operations/list".to_owned(), input: json_object_text(&fields) }
}

/// The request that makes a directory on the remote.
pub fn mkdir(remote_name: &str, path: &str) -> (r: RcloneRequest)
    requires
        !ends_with_colon(remote_name@),
    ensures
        r.method@ == "operations/mkdir"@,
        r.input@ == path_input(remote_name@, path@),
{
    common("operations/mkdir", remote_name, path)
}

/// The request that deletes a file.
pub fn delete(remote_name: &str, path: &str) -> (r: RcloneRequest)
    requires
        !ends_with_colon(remote_name@),
    ensures
        r.method@ == "operations/delete"@,
        r.input@ == path_input(remote_name@, path@),
{
    common("operations/delete", remote_name, path)
}

/// The request that removes a directory and all of its contents.
pub fn purge(remote_name: &str, path: &str) -> (r: RcloneRequest)
    requires
        !ends_with_colon(remote_name@),
    ensures
        r.method@ == "operations/purge"@,
        r.input@ == path_input(remote_name@, path@),
{
    common("operations/purge", remote_name, path)
}

/// The input of a copy of one file from one file system to another.
pub open spec fn copy_input(
    src_fs: Seq<char>,
    src_remote: Seq<char>,
    dst_fs: Seq<char>,
    dst_remote: Seq<char>,
) -> Seq<char> {
    json_object(
        seq![
            ("dstFs"@, json_string(dst_fs)),
            ("dstRemote"@, json_string(stripped(dst_remote))),
            ("srcFs"@, json_string(src_fs)),
            ("srcRemote"@, json_string(stripped(src_remote))),
        ],
    )
}

fn copy(src_fs: &str, src_remote: &str, dst_fs: &str, dst_remote: &str) -> (r: RcloneRequest)
    ensures
        r.method@ == "operations/copyfile"@,
        r.input@ == copy_input(src_fs@, src_remote@, dst_fs@, dst_remote@),
{
    let src = strip_slashes(src_remote);
    let dst = strip_slashes(dst_remote);
    let fields = vec![
        ("dstFs", json_string_text(dst_fs)),
        ("dstRemote", json_string_text(dst.as_str())),
        ("srcFs", json_string_text(src_fs)),
        ("srcRemote", json_string_text(src.as_str())),
    ];
    assert(field_views(fields@) =~= seq![
        ("dstFs"@, json_string(dst_fs@)),
        ("dstRemote"@, json_string(stripped(dst_remote@))),
        ("srcFs"@, json_string(src_fs@)),
        ("srcRemote"@, json_string(stripped(src_remote@))),
    ]);
    proof {
        lemma_request_keys_in_order();
    }
    RcloneRequest { method: "operations/copyfile".to_owned(), input: json_object_text(&fields) }
}

/// The request that copies a file from the local machine to the remote.
pub fn copy_to_remote(local_file: &str, remote_name: &str, remote_destination: &str) -> (r:
    RcloneRequest)
    requires
        !ends_with_colon(remote_name@),
    ensures
        r.method@ == "operations/copyfile"@,
        r.input@ == copy_input("/"@, local_file@, remote_fs(remote_name@), remote_destination@),
{
    let fs = get_remote_name(remote_name);
    copy("/", local_file, fs.as_str(), remote_destination)
}

/// The request that copies a file from the remote to the local machine.
pub fn copy_to_local(local_destination: &str, remote_name: &str, remote_file: &str) -> (r:
    RcloneRequest)
    requires
        !ends_with_colon(remote_name@),
    ensures
        r.method@ == "operations/copyfile"@,
        r.input@ == copy_input(remote_fs(remote_name@), remote_file@, "/"@, local_destination@),
{
    let fs = get_remote_name(remote_name);
    copy(fs.as_str(), remote_file, "/", local_destination)
}


/// Stripping slashes twice strips nothing more: the stripped path neither
/// starts nor ends with a slash.
pub proof fn lemma_strip_slashes_idempotent(path: Seq<char>)
    ensures
        stripped(stripped(path)) == stripped(path),
        stripped(path).len() > 0 ==> stripped(path)[0] != '/' && stripped(path).last() != '/',
{
    lemma_trim_by_idempotent(path, true);
    lemma_trim_by_ends(path, true);
}


/// Stripping removes slashes and nothing else: the stripped path is the run
/// of the path between its leading slashes and its trailing slashes, it
/// neither starts nor ends with a slash, and a path that neither starts nor
/// ends with a slash comes back unchanged.
pub proof fn lemma_strip_slashes_removes_only_slashes(path: Seq<char>) -> (bounds: (int, int))
    ensures
        0 <= bounds.0 <= bounds.1 <= path.len(),
        stripped(path) == path.subrange(bounds.0, bounds.1),
        forall|i: int| 0 <= i < bounds.0 ==> path[i] == '/',
        forall|i: int| bounds.1 <= i < path.len() ==> path[i] == '/',
        stripped(path).len() > 0 ==> stripped(path)[0] != '/' && stripped(path).last() != '/',
        path.len() == 0 || (path[0] != '/' && path.last() != '/') ==> stripped(path) == path,
{
    let a = lemma_trim_start_split_by(path, true);
    let rest = path.skip(a);
    let b = lemma_trim_end_split_by(rest, true);
    assert(rest.take(b) =~= path.subrange(a, a + b));
    assert forall|i: int| 0 <= i < a implies path[i] == '/' by {
        assert(trimmed_char(path[i], true));
    }
    assert forall|i: int| a + b <= i < path.len() implies path[i] == '/' by {
        assert(rest[i - a] == path[i]);
        assert(trimmed_char(rest[i - a], true));
    }
    lemma_trim_by_ends(path, true);
    if path.len() > 0 && path[0] != '/' && path.last() != '/' {
        assert(trim_start_by(path, true) == path);
        assert(trim_end_by(path, true) == path);
    }
    (a, a + b)
}

/// The options of every listing: the filter's flag (none for all items,
/// `dirsOnly` or `filesOnly` set to true), then `recurse` set to the
/// `recursive` argument.
pub proof fn lemma_list_options(recursive: bool, filter: RcloneListFilter)
    ensures
        list_options(recursive, filter) == json_object(
            (match filter {
                RcloneListFilter::All => Seq::<(Seq<char>, Seq<char>)>::empty(),
                RcloneListFilter::Dirs => seq![("dirsOnly"@, json_bool(true))],
                RcloneListFilter::Files => seq![("filesOnly"@, json_bool(true))],
            }).push(("recurse"@, json_bool(recursive))),
        ),
{
    assert(Seq::<(Seq<char>, Seq<char>)>::empty().push(("recurse"@, json_bool(recursive))) =~= seq![
        ("recurse"@, json_bool(recursive)),
    ]);
    assert(seq![("dirsOnly"@, json_bool(true))].push(("recurse"@, json_bool(recursive))) =~= seq![
        ("dirsOnly"@, json_bool(true)),
        ("recurse"@, json_bool(recursive)),
    ]);
    assert(seq![("filesOnly"@, json_bool(true))].push(("recurse"@, json_bool(recursive))) =~= seq![
        ("filesOnly"@, json_bool(true)),
        ("recurse"@, json_bool(recursive)),
    ]);
}

/// The inputs of the requests on a remote's path: the remote's file system
/// is its name followed by a colon, and the path is sent without its leading
/// and trailing slashes; a listing adds its options between the two.
pub proof fn lemma_path_inputs(
    remote_name: Seq<char>,
    path: Seq<char>,
    recursive: bool,
    filter: RcloneListFilter,
)
    ensures
        path_input(remote_name, path) == json_object(
            seq![
                ("fs"@, json_string(remote_name + seq![':'])),
                ("remote"@, json_string(stripped(path))),
            ],
        ),
        list_input(remote_name, path, recursive, filter) == json_object(
            seq![
                ("fs"@, json_string(remote_name + seq![':'])),
                ("opt"@, list_options(recursive, filter)),
                ("remote"@, json_string(stripped(path))),
            ],
        ),
{
    assert(remote_name.push(':') =~= remote_name + seq![':']);
}

} // verus!
