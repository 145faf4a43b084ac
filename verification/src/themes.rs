//! Theme assets: which file a theme address names, which files belong
//! into a backup, and the summary a completed download reports.
//!
//! Moving and downloading the files is the surrounding application's
//! job; every name and message it uses comes from here.

use vstd::prelude::*;

use crate::options::{ProvidedThemeInfo, ThemeSourceView};
use crate::text::{
    dec_rep, join_comma, segment_after_last, spec_join_comma, suffix_after_last, u64_to_string,
};

verus! {

/// The file a theme is stored under: the last segment of its address.
pub fn theme_file_name(theme: &ProvidedThemeInfo) -> (r: Result<String, String>)
    ensures
        r is Ok,
        r->Ok_0@ == suffix_after_last(theme@.url, '/'),
{
    Ok(segment_after_last(theme.url.as_str(), '/'))
}

/// The nonempty file names of a list of themes, in order: what a
/// backup carries over when those files exist.
pub open spec fn spec_theme_files(themes: Seq<ThemeSourceView>) -> Seq<Seq<char>>
    decreases themes.len(),
{
    if themes.len() == 0 {
        Seq::empty()
    } else {
        let rest = spec_theme_files(themes.skip(1));
        let f = suffix_after_last(themes[0].url, '/');
        if f.len() > 0 {
            seq![f] + rest
        } else {
            rest
        }
    }
}

/// Collect the file names a theme backup concerns, dropping themes
/// whose address yields no name.
pub fn theme_backup_file_names(themes: &Vec<ProvidedThemeInfo>) -> (r: Vec<String>)
    ensures
        r.deep_view() == spec_theme_files(themes.deep_view()),
{
    let mut out: Vec<String> = Vec::new();
    let mut i: usize = 0;
    proof {
        assert(themes.deep_view().skip(0) =~= themes.deep_view());
    }
    while i < themes.len()
        invariant
            i <= themes@.len(),
            themes@.len() == themes.deep_view().len(),
            spec_theme_files(themes.deep_view()) == out.deep_view() + spec_theme_files(
                themes.deep_view().skip(i as int),
            ),
        decreases themes.len() - i,
    {
        proof {
            assert(themes.deep_view().skip(i as int)[0] == themes@[i as int]@);
            assert(themes.deep_view().skip(i as int).skip(1) =~= themes.deep_view().skip(
                i as int + 1,
            ));
        }
        let ghost prev = out.deep_view();
        let name = segment_after_last(themes[i].url.as_str(), '/');
        if name.as_str().unicode_len() > 0 {
            out.push(name);
            proof {
                assert(out.deep_view() =~= prev.push(
                    suffix_after_last(themes.deep_view()[i as int].url, '/'),
                ));
                assert(out.deep_view() + spec_theme_files(
                    themes.deep_view().skip(i as int + 1),
                ) =~= prev + (seq![suffix_after_last(themes.deep_view()[i as int].url, '/')]
                    + spec_theme_files(themes.deep_view().skip(i as int + 1))));
            }
        }
        i = i + 1;
    }
    proof {
        assert(themes.deep_view().skip(i as int) =~= Seq::<ThemeSourceView>::empty());
        assert(out.deep_view() + Seq::<Seq<char>>::empty() =~= out.deep_view());
    }
    out
}

/// The report of a completed theme download: how many themes came in
/// and their names.
pub open spec fn spec_download_summary(names: Seq<Seq<char>>) -> Seq<char> {
    "Downloaded "@ + dec_rep(names.len()) + " theme(s): "@ + spec_join_comma(names)
}

/// Render the download report for the given theme names.
pub fn download_summary(names: &Vec<String>) -> (r: String)
    ensures
        r@ == spec_download_summary(names.deep_view()),
{
    let mut out = String::from_str("Downloaded ");
    out.append(u64_to_string(names.len() as u64).as_str());
    out.append(" theme(s): ");
    out.append(join_comma(names).as_str());
    proof {
        assert(out@ =~= spec_download_summary(names.deep_view()));
    }
    out
}

} // verus!
