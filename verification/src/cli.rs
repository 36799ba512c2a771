//! Reading the command line.

use vstd::prelude::*;

use crate::text::{chars_of, same_text};

verus! {

/// The argument that names the music folder, looking from `args[i]` on:
/// `--frame` and the width after it are skipped, other flags are skipped,
/// and the first argument that is not a flag is the folder.
pub open spec fn music_dir_from(args: Seq<Seq<char>>, i: int) -> Option<int>
    decreases args.len() + 2 - i,
{
    if i < 0 || i >= args.len() {
        None
    } else if args[i] == "--frame"@ {
        music_dir_from(args, i + 2)
    } else if !(args[i].len() > 0 && args[i][0] == '-') {
        Some(i)
    } else {
        music_dir_from(args, i + 1)
    }
}

/// The arguments as character sequences.
pub open spec fn args_view(args: Seq<String>) -> Seq<Seq<char>> {
    args.map_values(|a: String| a@)
}

/// Which argument names the music folder, if any; `args[0]` is the program.
pub fn music_dir_arg(args: &Vec<String>) -> (r: Option<usize>)
    ensures
        match r {
            Some(k) => music_dir_from(args_view(args@), 1) == Some(k as int),
            None => music_dir_from(args_view(args@), 1) is None,
        },
{
    let ghost all = args_view(args@);
    let mut i: usize = 1;
    while i < args.len()
        invariant
            1 <= i,
            all == args_view(args@),
            music_dir_from(all, 1) == music_dir_from(all, i as int),
        decreases args.len() - i,
    {
        let a = args[i].as_str();
        if same_text(a, "--frame") {
            if args.len() - i <= 2 {
                proof {
                    assert(music_dir_from(all, i + 2) is None);
                }
                return None;
            }
            i = i + 2;
        } else {
            let chars = chars_of(a);
            if !(chars.len() > 0 && chars[0] == '-') {
                return Some(i);
            }
            i = i + 1;
        }
    }
    None
}

/// The folder is the first argument after the program that is not a flag,
/// `--frame` taking the value after it along: what is picked never starts
/// with `-`, and when every argument before the first non-flag one is a flag
/// other than `--frame`, that argument is the folder; with only such flags,
/// there is none.
pub proof fn lemma_first_plain_argument(args: Seq<Seq<char>>, k: int)
    ensures
        music_dir_from(args, 1) matches Some(j) ==> 1 <= j < args.len() && !(args[j].len() > 0 && args[j][0]
            == '-'),
        1 <= k < args.len() && !(args[k].len() > 0 && args[k][0] == '-') && (forall|j: int|
            1 <= j < k ==> (#[trigger] args[j]).len() > 0 && args[j][0] == '-' && args[j] != "--frame"@)
            ==> music_dir_from(args, 1) == Some(k),
        (forall|j: int|
            1 <= j < args.len() ==> (#[trigger] args[j]).len() > 0 && args[j][0] == '-' && args[j] != "--frame"@)
            ==> music_dir_from(args, 1) is None,
{
    lemma_music_dir_found(args, 1);
    if 1 <= k < args.len() && !(args[k].len() > 0 && args[k][0] == '-') && (forall|j: int|
        1 <= j < k ==> (#[trigger] args[j]).len() > 0 && args[j][0] == '-' && args[j] != "--frame"@) {
        lemma_music_dir_skips(args, 1, k);
    }
    if forall|j: int|
        1 <= j < args.len() ==> (#[trigger] args[j]).len() > 0 && args[j][0] == '-' && args[j] != "--frame"@ {
        lemma_music_dir_none(args, 1);
    }
}

proof fn lemma_music_dir_found(args: Seq<Seq<char>>, i: int)
    requires
        i >= 1,
    ensures
        music_dir_from(args, i) matches Some(j) ==> i <= j < args.len() && !(args[j].len() > 0 && args[j][0]
            == '-'),
    decreases args.len() + 2 - i,
{
    if 0 <= i < args.len() {
        if args[i] == "--frame"@ {
            lemma_music_dir_found(args, i + 2);
        } else if args[i].len() > 0 && args[i][0] == '-' {
            lemma_music_dir_found(args, i + 1);
        }
    }
}

proof fn lemma_music_dir_skips(args: Seq<Seq<char>>, i: int, k: int)
    requires
        1 <= i <= k < args.len(),
        !(args[k].len() > 0 && args[k][0] == '-'),
        forall|j: int| i <= j < k ==> (#[trigger] args[j]).len() > 0 && args[j][0] == '-' && args[j] != "--frame"@,
    ensures
        music_dir_from(args, i) == Some(k),
    decreases k - i,
{
    if i < k {
        lemma_music_dir_skips(args, i + 1, k);
    } else {
        reveal_strlit("--frame");
        assert(args[k] != "--frame"@);
    }
}

proof fn lemma_music_dir_none(args: Seq<Seq<char>>, i: int)
    requires
        i >= 1,
        forall|j: int| i <= j < args.len() ==> (#[trigger] args[j]).len() > 0 && args[j][0] == '-' && args[j] != "--frame"@,
    ensures
        music_dir_from(args, i) is None,
    decreases args.len() + 2 - i,
{
    if i < args.len() {
        lemma_music_dir_none(args, i + 1);
    }
}

} // verus!
