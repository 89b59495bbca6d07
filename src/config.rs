use vstd::prelude::*;
use crate::paths::{join_path, joined};
use crate::tree::EntryInfo;

verus! {

/// The directory of theme `theme` under the configuration directory.
pub open spec fn theme_dir_spec(config_dir: Seq<char>, theme: Seq<char>) -> Seq<char> {
    joined(joined(config_dir, "themes"@), theme)
}

/// The directory of plugin `plugin` under the configuration directory.
pub open spec fn plugin_dir_spec(config_dir: Seq<char>, plugin: Seq<char>) -> Seq<char> {
    joined(joined(config_dir, "plugins"@), plugin)
}

/// The directory that holds all themes.
pub fn themes_root(config_dir: &str) -> (r: String)
    ensures
        r@ == joined(config_dir@, "themes"@),
{
    join_path(config_dir, "themes")
}

/// The directory that holds all plugins.
pub fn plugins_root(config_dir: &str) -> (r: String)
    ensures
        r@ == joined(config_dir@, "plugins"@),
{
    join_path(config_dir, "plugins")
}

/// The directory of one theme.
pub fn theme_dir(config_dir: &str, theme: &str) -> (r: String)
    ensures
        r@ == theme_dir_spec(config_dir@, theme@),
{
    let root = themes_root(config_dir);
    join_path(root.as_str(), theme)
}

/// A file of one theme.
pub fn theme_file(config_dir: &str, theme: &str, file: &str) -> (r: String)
    ensures
        r@ == joined(theme_dir_spec(config_dir@, theme@), file@),
{
    let dir = theme_dir(config_dir, theme);
    join_path(dir.as_str(), file)
}

/// The directory of one plugin.
pub fn plugin_dir(config_dir: &str, plugin: &str) -> (r: String)
    ensures
        r@ == plugin_dir_spec(config_dir@, plugin@),
{
    let root = plugins_root(config_dir);
    join_path(root.as_str(), plugin)
}

/// A file of one plugin.
pub fn plugin_file(config_dir: &str, plugin: &str, file: &str) -> (r: String)
    ensures
        r@ == joined(plugin_dir_spec(config_dir@, plugin@), file@),
{
    let dir = plugin_dir(config_dir, plugin);
    join_path(dir.as_str(), file)
}

/// A configuration file directly under the configuration directory.
pub fn config_file(config_dir: &str, file: &str) -> (r: String)
    ensures
        r@ == joined(config_dir@, file@),
{
    join_path(config_dir, file)
}

/// The names of the directories among `entries`, in listing order.
pub open spec fn directory_names_spec(entries: Seq<EntryInfo>) -> Seq<Seq<char>>
    decreases entries.len(),
{
    if entries.len() == 0 {
        Seq::empty()
    } else {
        directory_names_spec(entries.drop_last()) + if entries.last().is_directory {
            seq![entries.last().name@]
        } else {
            Seq::empty()
        }
    }
}

/// The texts of a list of strings.
pub open spec fn texts(s: Seq<String>) -> Seq<Seq<char>> {
    s.map_values(|x: String| x@)
}

/// The names of the directory entries of a listing (installed themes or plugins).
pub fn directory_names(entries: &Vec<EntryInfo>) -> (r: Vec<String>)
    ensures
        texts(r@) == directory_names_spec(entries@),
{
    let mut out: Vec<String> = Vec::new();
    let mut i: usize = 0;
    assert(entries@.subrange(0, 0) =~= Seq::<EntryInfo>::empty());
    assert(texts(out@) =~= Seq::<Seq<char>>::empty());
    while i < entries.len()
        invariant
            i <= entries@.len(),
            texts(out@) == directory_names_spec(entries@.subrange(0, i as int)),
        decreases entries.len() - i,
    {
        let ghost sub = entries@.subrange(0, i + 1);
        assert(sub.drop_last() =~= entries@.subrange(0, i as int));
        if entries[i].is_directory {
            out.push(entries[i].name.clone());
        }
        assert(texts(out@) =~= directory_names_spec(sub));
        i = i + 1;
    }
    assert(entries@.subrange(0, i as int) =~= entries@);
    out
}

} // verus!
