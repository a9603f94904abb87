//! The command lines of the filesystem tool and of the remote shell, as
//! lists of words: the program first, then its arguments.

use crate::text::texts;
use vstd::prelude::*;

verus! {

/// Creates the snapshot `name`, in all children of its pool too where `recursive`.
pub open spec fn snapshot_args(name: Seq<char>, recursive: bool) -> Seq<Seq<char>> {
    if recursive {
        seq!["zfs"@, "snapshot"@, "-r"@, name]
    } else {
        seq!["zfs"@, "snapshot"@, name]
    }
}

/// Destroys the snapshot `name`, in all children of its pool too.
pub open spec fn destroy_args(name: Seq<char>) -> Seq<Seq<char>> {
    seq!["zfs"@, "destroy"@, "-r"@, name]
}

/// Streams the snapshot `base`: all of it, or what has changed since `precursor`.
pub open spec fn send_args(precursor: Option<Seq<char>>, base: Seq<char>) -> Seq<Seq<char>> {
    match precursor {
        Some(p) => seq!["zfs"@, "send"@, "-v"@, "-R"@, "-w"@, "-L"@, "-I"@, p, base],
        None => seq!["zfs"@, "send"@, "-v"@, "-R"@, "-w"@, "-L"@, base],
    }
}

/// Receives a stream into `pool`, read-only and without a mount point.
pub open spec fn receive_args(pool: Seq<char>) -> Seq<Seq<char>> {
    seq!["zfs"@, "recv"@, "-o"@, "mountpoint=none"@, "-o"@, "readonly=on"@, pool]
}

/// Hands a stream to the remote shell at `endpoint`.
pub open spec fn remote_shell_args(endpoint: Seq<char>) -> Seq<Seq<char>> {
    seq!["ssh"@, endpoint]
}

/// Lists the snapshots of `pool`, one name on each line, those of its
/// children too where `recursive`.
pub open spec fn list_snapshots_args(pool: Seq<char>, recursive: bool) -> Seq<Seq<char>> {
    if recursive {
        seq!["zfs"@, "list"@, "-H"@, "-t"@, "snapshot"@, "-o"@, "name"@, "-r"@, pool]
    } else {
        seq!["zfs"@, "list"@, "-H"@, "-t"@, "snapshot"@, "-o"@, "name"@, pool]
    }
}

/// Lists the filesystems, each with its mount point.
pub open spec fn list_mounted_args() -> Seq<Seq<char>> {
    seq!["zfs"@, "list"@, "-H"@, "-t"@, "filesystem"@, "-o"@, "name,mountpoint"@]
}

/// The words of a command on one line, a space between each two.
pub open spec fn joined(words: Seq<Seq<char>>) -> Seq<char>
    decreases words.len(),
{
    if words.len() == 0 {
        Seq::empty()
    } else if words.len() == 1 {
        words[0]
    } else {
        joined(words.drop_last()) + seq![' '] + words.last()
    }
}

fn push_word(argv: &mut Vec<String>, word: &str)
    ensures
        texts(final(argv)@) == texts(old(argv)@).push(word@),
{
    argv.push(String::from_str(word));
    assert(texts(argv@) =~= texts(old(argv)@).push(word@));
}

fn tool(verb: &str) -> (argv: Vec<String>)
    ensures
        texts(argv@) == seq!["zfs"@, verb@],
{
    let mut argv: Vec<String> = Vec::new();
    assert(texts(argv@) =~= Seq::empty());
    push_word(&mut argv, "zfs");
    push_word(&mut argv, verb);
    argv
}

/// The command that creates the snapshot `name`.
pub fn snapshot_command(name: &str, recursive: bool) -> (argv: Vec<String>)
    ensures
        texts(argv@) == snapshot_args(name@, recursive),
{
    let mut argv = tool("snapshot");
    if recursive {
        push_word(&mut argv, "-r");
    }
    push_word(&mut argv, name);
    argv
}

/// The command that destroys the snapshot `name`.
pub fn destroy_command(name: &str) -> (argv: Vec<String>)
    ensures
        texts(argv@) == destroy_args(name@),
{
    let mut argv = tool("destroy");
    push_word(&mut argv, "-r");
    push_word(&mut argv, name);
    argv
}

/// The command that streams the snapshot `base`, from `precursor` on where one is given.
pub fn send_command(precursor: Option<&str>, base: &str) -> (argv: Vec<String>)
    ensures
        texts(argv@) == send_args(
            match precursor {
                Some(p) => Some(p@),
                None => None,
            },
            base@,
        ),
{
    let mut argv = tool("send");
    push_word(&mut argv, "-v");
    push_word(&mut argv, "-R");
    push_word(&mut argv, "-w");
    push_word(&mut argv, "-L");
    if let Some(p) = precursor {
        push_word(&mut argv, "-I");
        push_word(&mut argv, p);
    }
    push_word(&mut argv, base);
    argv
}

/// The command that receives a stream into `pool`.
pub fn receive_command(pool: &str) -> (argv: Vec<String>)
    ensures
        texts(argv@) == receive_args(pool@),
{
    let mut argv = tool("recv");
    push_word(&mut argv, "-o");
    push_word(&mut argv, "mountpoint=none");
    push_word(&mut argv, "-o");
    push_word(&mut argv, "readonly=on");
    push_word(&mut argv, pool);
    argv
}

/// The command that hands a stream to the remote shell at `endpoint`.
pub fn remote_shell_command(endpoint: &str) -> (argv: Vec<String>)
    ensures
        texts(argv@) == remote_shell_args(endpoint@),
{
    let mut argv: Vec<String> = Vec::new();
    assert(texts(argv@) =~= Seq::empty());
    push_word(&mut argv, "ssh");
    push_word(&mut argv, endpoint);
    argv
}

/// The command that lists the snapshots of `pool`.
pub fn list_snapshots_command(pool: &str, recursive: bool) -> (argv: Vec<String>)
    ensures
        texts(argv@) == list_snapshots_args(pool@, recursive),
{
    let mut argv = tool("list");
    push_word(&mut argv, "-H");
    push_word(&mut argv, "-t");
    push_word(&mut argv, "snapshot");
    push_word(&mut argv, "-o");
    push_word(&mut argv, "name");
    if recursive {
        push_word(&mut argv, "-r");
    }
    push_word(&mut argv, pool);
    argv
}

/// The command that lists the filesystems with their mount points.
pub fn list_mounted_command() -> (argv: Vec<String>)
    ensures
        texts(argv@) == list_mounted_args(),
{
    let mut argv = tool("list");
    push_word(&mut argv, "-H");
    push_word(&mut argv, "-t");
    push_word(&mut argv, "filesystem");
    push_word(&mut argv, "-o");
    push_word(&mut argv, "name,mountpoint");
    argv
}

/// The words of a command on one line.
pub fn command_line(argv: &Vec<String>) -> (line: String)
    ensures
        line@ == joined(texts(argv@)),
{
    let mut line = String::new();
    let mut i: usize = 0;
    while i < argv.len()
        invariant
            i <= argv.len(),
            line@ == joined(texts(argv@).take(i as int)),
        decreases argv.len() - i,
    {
        proof {
            let words = texts(argv@);
            assert(words.take(i + 1).drop_last() =~= words.take(i as int));
            assert(words.take(i + 1).last() == argv@[i as int]@);
            reveal_strlit(" ");
            assert(" "@ =~= seq![' ']);
        }
        if i > 0 {
            line.append(" ");
        }
        line.append(argv[i].as_str());
        i += 1;
    }
    proof {
        assert(texts(argv@).take(i as int) =~= texts(argv@));
    }
    line
}

} // verus!
