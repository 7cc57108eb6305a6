//! The last viewed position and zoom, kept between runs.
//!
//! Kept apart from the configuration: this is where the user was, not where
//! the user starts. It lies in the XDG state directory.

use crate::config;
use crate::config::Real;
use crate::geo::MapState;
use crate::paths;
use crate::paths::{Environment, FsPath};
use vstd::prelude::*;
#[allow(unused_imports)]
use vstd::utf8::*;

verus! {

/// Last-viewed map position, restored on the next launch.
#[derive(Debug, Clone, Copy, PartialEq, Eq, Structural)]
pub struct MapPersist {
    pub lon: Real,
    pub lat: Real,
    pub zoom: u8,
}

/// Where the last view is kept.
pub open spec fn state_file(env: Environment) -> Seq<u8> {
    paths::joined(
        paths::joined(config::state_home_path(env), encode_utf8("waltzgps"@)),
        encode_utf8("state.toml"@),
    )
}

impl MapPersist {
    /// State-file path: `waltzgps/state.toml` in the user's state directory.
    pub fn path(env: &Environment) -> (r: FsPath)
        ensures
            r@ == state_file(*env),
    {
        config::state_home(env).join("waltzgps").join("state.toml")
    }
}

/// The view that a saved position stands for, with the zoom brought down to
/// what the provider permits.
pub open spec fn restored(saved: MapPersist, max_zoom: u8) -> MapState {
    MapState {
        center_lon: saved.lon,
        center_lat: saved.lat,
        zoom: if saved.zoom <= max_zoom {
            saved.zoom
        } else {
            max_zoom
        },
    }
}

/// A saved position is restored as it is. Its zoom level is too, unless it is
/// above the limit, which takes its place then.
pub proof fn law_restored_view(saved: MapPersist, max_zoom: u8)
    ensures
        restored(saved, max_zoom).center_lon == saved.lon,
        restored(saved, max_zoom).center_lat == saved.lat,
        saved.zoom <= max_zoom ==> restored(saved, max_zoom).zoom == saved.zoom,
        saved.zoom > max_zoom ==> restored(saved, max_zoom).zoom == max_zoom,
{
}

/// The last view is kept in `waltzgps/state.toml` below the XDG state
/// directory, which is `.local/state` in the home directory unless it is set.
pub proof fn law_where_the_view_is_kept(env: Environment, base: Seq<u8>)
    requires
        paths::is_plain(base),
    ensures
        ({
            let xdg = paths::path_view(env.xdg_state_home);
            let home = paths::path_view(env.home);
            &&& xdg == Some(base) ==> state_file(env) == base + seq![47u8] + encode_utf8(
                "waltzgps/state.toml"@,
            )
            &&& (xdg is None || xdg == Some(Seq::<u8>::empty())) && home == Some(base)
                ==> state_file(env) == base + seq![47u8] + encode_utf8(
                ".local/state/waltzgps/state.toml"@,
            )
        }),
{
    reveal_strlit("waltzgps");
    reveal_strlit("state.toml");
    reveal_strlit(".local/state");
    reveal_strlit("waltzgps/state.toml");
    reveal_strlit(".local/state/waltzgps/state.toml");
    is_ascii_chars_encode_utf8("waltzgps"@);
    is_ascii_chars_encode_utf8("state.toml"@);
    is_ascii_chars_encode_utf8(".local/state"@);
    is_ascii_chars_encode_utf8("waltzgps/state.toml"@);
    is_ascii_chars_encode_utf8(".local/state/waltzgps/state.toml"@);
    let slash = seq![47u8];
    let name = encode_utf8("waltzgps"@);
    let file = encode_utf8("state.toml"@);
    let hidden = encode_utf8(".local/state"@);
    let below = encode_utf8("waltzgps/state.toml"@);
    assert(below =~= name + slash + file);
    assert(encode_utf8(".local/state/waltzgps/state.toml"@) =~= hidden + slash + below);
    paths::law_base_directory(base, paths::path_view(env.home), base, hidden);
    let deep = base + slash + hidden;
    assert(deep[deep.len() - 1] == hidden[hidden.len() - 1]);
    lemma_file_below(base, name, file);
    lemma_file_below(deep, name, file);
    assert(deep + slash + below =~= base + slash + (hidden + slash + below));
}

/// A file in a directory below another one.
proof fn lemma_file_below(dir: Seq<u8>, name: Seq<u8>, file: Seq<u8>)
    requires
        paths::is_plain(dir),
        paths::is_plain(name),
        name[0] != 47,
        !(file.len() > 0 && file[0] == 47),
    ensures
        paths::joined(paths::joined(dir, name), file) == dir + seq![47u8] + (name + seq![47u8]
            + file),
{
    let slash = seq![47u8];
    paths::law_join_puts_one_slash_between(dir, name);
    let inner = dir + slash + name;
    assert(inner[inner.len() - 1] == name[name.len() - 1]);
    paths::law_join_puts_one_slash_between(inner, file);
    assert(inner + slash + file =~= dir + slash + (name + slash + file));
}

/// However the directories of the user are written, the last view is kept in
/// `waltzgps` and `state.toml` as they are reached from the XDG state
/// directory.
pub proof fn law_view_is_reached_from_the_user_directories(env: Environment)
    ensures
        state_file(env) == paths::joined(
            paths::joined(
                paths::base_directory(
                    paths::path_view(env.xdg_state_home),
                    paths::path_view(env.home),
                    encode_utf8(".local/state"@),
                ),
                encode_utf8("waltzgps"@),
            ),
            encode_utf8("state.toml"@),
        ),
{
}

} // verus!
