//! Command-line arguments.

use crate::config;
use crate::downloader;
use crate::text;
use vstd::prelude::*;

verus! {

/// The path given by `--config <path>` or `--config=<path>` in the arguments
/// from position `i` on; the first such argument counts.
pub open spec fn config_argument(args: Seq<Seq<char>>, i: int) -> Option<Seq<char>>
    decreases args.len() - i,
{
    if i < 0 || i >= args.len() {
        None
    } else if text::behind(args[i], "--config="@) is Some {
        text::behind(args[i], "--config="@)
    } else if args[i] == "--config"@ {
        if i + 1 < args.len() {
            Some(args[i + 1])
        } else {
            None
        }
    } else {
        config_argument(args, i + 1)
    }
}

/// Looks for `--config <path>` or `--config=<path>` in the arguments behind
/// the program's name.
pub fn parse_config_arg(args: &Vec<String>) -> (r: Option<String>)
    ensures
        config::text_view(r) == config_argument(downloader::string_views(args@), 0),
{
    let ghost all = downloader::string_views(args@);
    let mut i: usize = 0;
    while i < args.len()
        invariant
            i <= args@.len(),
            all == downloader::string_views(args@),
            config_argument(all, 0) == config_argument(all, i as int),
        decreases args@.len() - i,
    {
        proof {
            assert(all[i as int] == args@[i as int]@);
        }
        if let Some(rest) = text::stripped(args[i].as_str(), "--config=") {
            return Some(rest);
        }
        if text::same(args[i].as_str(), "--config") {
            if i + 1 < args.len() {
                proof {
                    assert(all[i + 1] == args@[i + 1]@);
                }
                return Some(args[i + 1].clone());
            }
            return None;
        }
        i += 1;
    }
    None
}

/// Whether an argument has nothing to do with the configuration.
pub open spec fn is_other(arg: Seq<char>) -> bool {
    &&& arg != "--config"@
    &&& forall|path: Seq<char>| arg != #[trigger] ("--config="@ + path)
}

/// The first argument that names a configuration counts, in either form,
/// whatever follows it. Arguments before it that do not are passed over. A
/// `--config` at the end names none, and neither does any other argument.
pub proof fn law_first_config_argument_counts(
    before: Seq<Seq<char>>,
    path: Seq<char>,
    rest: Seq<Seq<char>>,
)
    requires
        forall|i: int| 0 <= i < before.len() ==> is_other(#[trigger] before[i]),
    ensures
        config_argument(before + seq!["--config"@, path] + rest, 0) == Some(path),
        config_argument(before + seq!["--config="@ + path] + rest, 0) == Some(path),
        config_argument(before.push("--config"@), 0) is None,
        config_argument(before, 0) is None,
{
    reveal_strlit("--config");
    reveal_strlit("--config=");
    text::law_prefix_and_rest_make_the_string("--config="@ + path, "--config="@, path);
    let n = before.len() as int;
    let apart = before + seq!["--config"@, path] + rest;
    assert(apart[n] == "--config"@);
    assert(apart[n + 1] == path);
    lemma_others_are_passed_over(apart, n, 0);
    let joint = before + seq!["--config="@ + path] + rest;
    assert(joint[n] == "--config="@ + path);
    lemma_others_are_passed_over(joint, n, 0);
    lemma_others_are_passed_over(before.push("--config"@), n, 0);
    lemma_others_are_passed_over(before, n, 0);
}

/// Arguments that do not name a configuration are passed over.
proof fn lemma_others_are_passed_over(args: Seq<Seq<char>>, n: int, i: int)
    requires
        0 <= i <= n <= args.len(),
        forall|k: int| 0 <= k < n ==> is_other(#[trigger] args[k]),
    ensures
        config_argument(args, i) == config_argument(args, n),
    decreases n - i,
{
    if i < n {
        assert(is_other(args[i]));
        if let Some(rest) = text::behind(args[i], "--config="@) {
            text::law_prefix_and_rest_make_the_string(args[i], "--config="@, rest);
            assert(args[i] != "--config="@ + rest);
        }
        lemma_others_are_passed_over(args, n, i + 1);
    }
}

} // verus!
