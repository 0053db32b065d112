//! The server's configuration and the rules that check a tool call's arguments against it.

use vstd::prelude::*;
use std::time::Duration;
use crate::bindings::{duration_of_secs, duration_from_secs};
use crate::error::{AppError, AppErrorView, result_view};
use crate::path::{components_in, is_absolute_in, join_in, join_keeps_base, starts_with_in, path_components,
    is_absolute_text, join_text, path_starts_with_text, PathStyle};
use crate::text::{
    chars_of, contains_text, copy_strings, opt_str, opt_text, opt_views, split, split_text, text_less,
    text_less_exec, trim, trim_text, views, lemma_text_less_total, lemma_text_less_transitive,
    parse_u64_spec, parse_u64_text, int_parse_error_message, int_parse_error_text,
};

verus! {

/// The timeout of a run when the request names none, unless the environment sets another.
pub const DEFAULT_TIMEOUT_SECS: u64 = 600;

/// The largest timeout a request may ask for, unless the environment sets another.
pub const DEFAULT_MAX_TIMEOUT_SECS: u64 = 1800;

// ---------------------------------------------------------------------------
// Sorted sets of texts
// ---------------------------------------------------------------------------

/// Whether each text of `s` comes before every later one: `s` is sorted and has no duplicates.
pub open spec fn strictly_sorted(s: Seq<Seq<char>>) -> bool {
    forall|i: int, j: int| 0 <= i < j < s.len() ==> text_less(s[i], s[j])
}

/// Whether `m` lists, in sorted order and once each, the texts that occur in `items`: the order in
/// which a `BTreeSet<String>` of `items` would yield them.
pub open spec fn is_sorted_set_of(m: Seq<Seq<char>>, items: Seq<Seq<char>>) -> bool {
    &&& strictly_sorted(m)
    &&& forall|x: Seq<char>| m.contains(x) <==> items.contains(x)
}

/// Inserts `x` into the sorted list `out` unless it is there already.
fn insert_sorted(out: &mut Vec<String>, x: String)
    requires
        strictly_sorted(views(old(out)@)),
    ensures
        strictly_sorted(views(final(out)@)),
        forall|y: Seq<char>| views(final(out)@).contains(y) <==> (views(old(out)@).contains(y) || y
            == x@),
{
    let ghost ov = views(out@);
    let xc = chars_of(x.as_str());
    let mut i: usize = 0;
    while i < out.len() && text_less_exec(&chars_of(out[i].as_str()), &xc)
        invariant
            i <= out.len(),
            out@ == old(out)@,
            ov == views(out@),
            xc@ == x@,
            forall|k: int| 0 <= k < i ==> text_less(ov[k], x@),
        decreases out.len() - i,
    {
        i = i + 1;
    }
    if i < out.len() && out[i] == x {
        assert(ov[i as int] == x@);
        return;
    }
    let ghost xv = x@;
    out.insert(i, x);
    let ghost nv = views(out@);
    assert(nv =~= ov.insert(i as int, xv));
    proof {
        if i < ov.len() {
            lemma_text_less_total(ov[i as int], xv);
        }
        assert forall|a: int, b: int| 0 <= a < b < nv.len() implies text_less(nv[a], nv[b]) by {
            if b < i {
            } else if b == i {
            } else if a < i {
                assert(nv[b] == ov[b - 1]);
            } else if a == i {
                assert(nv[b] == ov[b - 1]);
                if b - 1 > i {
                    lemma_text_less_transitive(xv, ov[i as int], ov[b - 1]);
                }
            } else {
                assert(nv[a] == ov[a - 1]);
                assert(nv[b] == ov[b - 1]);
            }
        }
        assert forall|y: Seq<char>| nv.contains(y) <==> (ov.contains(y) || y == xv) by {
            if nv.contains(y) {
                let k = choose|k: int| 0 <= k < nv.len() && nv[k] == y;
                if k < i {
                    assert(ov[k] == y);
                } else if k > i {
                    assert(ov[k - 1] == y);
                }
            }
            if ov.contains(y) {
                let k = choose|k: int| 0 <= k < ov.len() && ov[k] == y;
                if k < i {
                    assert(nv[k] == y);
                } else {
                    assert(nv[k + 1] == y);
                }
            }
            if y == xv {
                assert(nv[i as int] == y);
            }
        }
    }
}

/// The texts of `items`, sorted and without duplicates.
pub fn sorted_set(items: &Vec<String>) -> (r: Vec<String>)
    ensures
        is_sorted_set_of(views(r@), views(items@)),
{
    let mut out: Vec<String> = Vec::new();
    let mut i: usize = 0;
    while i < items.len()
        invariant
            i <= items.len(),
            strictly_sorted(views(out@)),
            forall|y: Seq<char>| views(out@).contains(y) <==> views(items@).subrange(
                0,
                i as int,
            ).contains(y),
        decreases items.len() - i,
    {
        let ghost before = views(items@).subrange(0, i as int);
        let ghost after = views(items@).subrange(0, i + 1);
        assert(after =~= before.push(items@[i as int]@));
        insert_sorted(&mut out, items[i].clone());
        assert forall|y: Seq<char>| after.contains(y) <==> (before.contains(y) || y
            == items@[i as int]@) by {
            if after.contains(y) {
                let k = choose|k: int| 0 <= k < after.len() && after[k] == y;
                if k < i {
                    assert(before[k] == y);
                }
            }
            if before.contains(y) {
                let k = choose|k: int| 0 <= k < before.len() && before[k] == y;
                assert(after[k] == y);
            }
            if y == items@[i as int]@ {
                assert(after[i as int] == y);
            }
        }
        i = i + 1;
    }
    assert(views(items@).subrange(0, items.len() as int) =~= views(items@));
    out
}

// ---------------------------------------------------------------------------
// The configuration
// ---------------------------------------------------------------------------

/// The value of an [`AppConfig`].
pub struct ConfigView {
    /// The binary to run.
    pub gemini_bin: Seq<char>,
    /// The timeout of a run whose request names none.
    pub default_timeout_secs: u64,
    /// The largest timeout a request may ask for.
    pub max_timeout_secs: u64,
    /// The models a request may name, sorted and once each; `None` allows every model.
    pub allowed_models: Option<Seq<Seq<char>>>,
    /// The directories a run may work in, with everything below them; `None` allows any.
    pub allowed_cwd_prefixes: Option<Seq<Seq<char>>>,
    /// The directory against which relative working directories are resolved.
    pub working_dir: Seq<char>,
}

/// The server's configuration.
#[derive(Debug)]
pub struct AppConfig {
    gemini_bin: String,
    default_timeout_secs: u64,
    max_timeout_secs: u64,
    allowed_models: Option<Vec<String>>,
    allowed_cwd_prefixes: Option<Vec<String>>,
    working_dir: String,
}

impl View for AppConfig {
    type V = ConfigView;

    closed spec fn view(&self) -> ConfigView {
        ConfigView {
            gemini_bin: self.gemini_bin@,
            default_timeout_secs: self.default_timeout_secs,
            max_timeout_secs: self.max_timeout_secs,
            allowed_models: opt_views(self.allowed_models),
            allowed_cwd_prefixes: opt_views(self.allowed_cwd_prefixes),
            working_dir: self.working_dir@,
        }
    }
}

/// Whether a configuration's allowlist, if any, is sorted and free of duplicates.
pub open spec fn allowlist_sorted(c: ConfigView) -> bool {
    c.allowed_models matches Some(m) ==> strictly_sorted(m)
}

// ---------------------------------------------------------------------------
// What the checks of a tool call's arguments decide
// ---------------------------------------------------------------------------

/// The timeout a request asks for: its own, or else the default.
pub open spec fn chosen_timeout(c: ConfigView, requested: Option<u64>) -> u64 {
    match requested {
        Some(t) => t,
        None => c.default_timeout_secs,
    }
}

/// What a timeout request gives: the timeout in seconds, or why it is refused.
pub open spec fn timeout_outcome(c: ConfigView, requested: Option<u64>) -> Result<u64, AppErrorView> {
    let t = chosen_timeout(c, requested);
    if t == 0 {
        Err(AppErrorView::InvalidParams("timeout_secs must be greater than zero"@))
    } else if t > c.max_timeout_secs {
        Err(AppErrorView::TimeoutTooLarge { requested_secs: t, max_secs: c.max_timeout_secs })
    } else {
        Ok(t)
    }
}

/// A requested text, trimmed; `None` when absent or blank.
pub open spec fn trimmed_request(requested: Option<Seq<char>>) -> Option<Seq<char>> {
    match requested {
        Some(q) => if trim(q).len() > 0 {
            Some(trim(q))
        } else {
            None
        },
        None => None,
    }
}

/// What a model request gives: the model to pass on (`None` for the CLI's default), or why it
/// is refused.
pub open spec fn model_outcome(c: ConfigView, requested: Option<Seq<char>>) -> Result<
    Option<Seq<char>>,
    AppErrorView,
> {
    let m = trimmed_request(requested);
    match (c.allowed_models, m) {
        (Some(allowed), Some(name)) => if allowed.contains(name) {
            Ok(m)
        } else {
            Err(AppErrorView::ModelNotAllowed { model: name, allowed })
        },
        _ => Ok(m),
    }
}

/// The directory a working-directory request names, before it is canonicalized: the configured
/// working directory when the request is absent or blank, the request itself when absolute, and
/// otherwise the request joined onto the working directory.
pub open spec fn cwd_candidate_of(
    c: ConfigView,
    requested: Option<Seq<char>>,
    style: PathStyle,
) -> Seq<char> {
    match trimmed_request(requested) {
        Some(p) => if is_absolute_in(style, p) {
            p
        } else {
            join_in(style, c.working_dir, p)
        },
        None => c.working_dir,
    }
}

/// Whether `cwd` lies within one of the `prefixes`.
pub open spec fn under_some_prefix(cwd: Seq<char>, prefixes: Seq<Seq<char>>, style: PathStyle) -> bool {
    exists|i: int| 0 <= i < prefixes.len() && starts_with_in(style, cwd, #[trigger] prefixes[i])
}

/// What a working-directory request gives, where `canonical` is the canonical form of the
/// candidate directory when it exists and is a directory: the directory, or why it is refused.
pub open spec fn cwd_outcome(
    c: ConfigView,
    requested: Option<Seq<char>>,
    canonical: Option<Seq<char>>,
    style: PathStyle,
) -> Result<Seq<char>, AppErrorView> {
    match canonical {
        None => Err(AppErrorView::InvalidWorkingDirectory(cwd_candidate_of(c, requested, style))),
        Some(cwd) => match c.allowed_cwd_prefixes {
            Some(prefixes) => if under_some_prefix(cwd, prefixes, style) {
                Ok(cwd)
            } else {
                Err(AppErrorView::WorkingDirectoryNotAllowed { cwd, allowed_prefixes: prefixes })
            },
            None => Ok(cwd),
        },
    }
}

impl AppConfig {
    #[verifier::type_invariant]
    spec fn allowlist_is_sorted(self) -> bool {
        self.allowed_models matches Some(v) ==> strictly_sorted(views(v@))
    }

    /// A configuration. The allowlist is kept as a set: sorted, each model once.
    pub fn new(
        gemini_bin: String,
        default_timeout_secs: u64,
        max_timeout_secs: u64,
        allowed_models: Option<Vec<String>>,
        allowed_cwd_prefixes: Option<Vec<String>>,
        working_dir: String,
    ) -> (r: Self)
        ensures
            r@.gemini_bin == gemini_bin@,
            r@.default_timeout_secs == default_timeout_secs,
            r@.max_timeout_secs == max_timeout_secs,
            match allowed_models {
                Some(v) => r@.allowed_models matches Some(m) && is_sorted_set_of(m, views(v@)),
                None => r@.allowed_models is None,
            },
            r@.allowed_cwd_prefixes == opt_views(allowed_cwd_prefixes),
            r@.working_dir == working_dir@,
    {
        let models = match &allowed_models {
            Some(v) => Some(sorted_set(v)),
            None => None,
        };
        AppConfig {
            gemini_bin,
            default_timeout_secs,
            max_timeout_secs,
            allowed_models: models,
            allowed_cwd_prefixes,
            working_dir,
        }
    }

    /// The binary to run.
    pub fn gemini_bin(&self) -> (r: &str)
        ensures
            r@ == self@.gemini_bin,
    {
        self.gemini_bin.as_str()
    }

    /// The timeout of a run whose request names none.
    pub fn default_timeout(&self) -> (r: Duration)
        ensures
            r == duration_of_secs(self@.default_timeout_secs),
    {
        duration_from_secs(self.default_timeout_secs)
    }

    /// The timeout of a run, in seconds: the requested one, or the default; it must be
    /// positive and at most the configured maximum.
    pub fn resolve_timeout_secs(&self, requested_secs: Option<u64>) -> (r: Result<u64, AppError>)
        ensures
            result_view(r) == timeout_outcome(self@, requested_secs),
    {
        let timeout_secs = match requested_secs {
            Some(t) => t,
            None => self.default_timeout_secs,
        };
        if timeout_secs == 0 {
            return Err(
                AppError::InvalidParams(String::from_str("timeout_secs must be greater than zero")),
            );
        }
        if timeout_secs > self.max_timeout_secs {
            return Err(
                AppError::TimeoutTooLarge {
                    requested_secs: timeout_secs,
                    max_secs: self.max_timeout_secs,
                },
            );
        }
        Ok(timeout_secs)
    }

    /// The timeout of a run: the requested one, or the default; it must be positive and at most
    /// the configured maximum.
    pub fn resolve_timeout(&self, requested_secs: Option<u64>) -> (r: Result<Duration, AppError>)
        ensures
            match timeout_outcome(self@, requested_secs) {
                Ok(t) => r == Ok::<Duration, AppError>(duration_of_secs(t)),
                Err(e) => r matches Err(err) && err@ == e,
            },
    {
        match self.resolve_timeout_secs(requested_secs) {
            Ok(t) => Ok(duration_from_secs(t)),
            Err(e) => Err(e),
        }
    }

    /// The model to pass to the CLI: the trimmed request (`None` when absent or blank), which
    /// must be in the allowlist when one is configured. A refusal lists the allowlist, which is
    /// always sorted and free of duplicates.
    pub fn resolve_model(&self, requested: Option<&str>) -> (r: Result<Option<String>, AppError>)
        ensures
            match model_outcome(self@, opt_str(requested)) {
                Ok(m) => r matches Ok(x) && opt_text(x) == m,
                Err(e) => r matches Err(err) && err@ == e,
            },
            allowlist_sorted(self@),
    {
        proof {
            use_type_invariant(self);
        }
        let model: Option<String> = match requested {
            Some(q) => {
                let t = trim_text(q);
                if t.as_str().unicode_len() == 0 {
                    None
                } else {
                    Some(t)
                }
            },
            None => None,
        };
        match (&self.allowed_models, &model) {
            (Some(allowed), Some(name)) => {
                if !contains_text(allowed, name.as_str()) {
                    return Err(
                        AppError::ModelNotAllowed {
                            model: name.clone(),
                            allowed: copy_strings(allowed),
                        },
                    );
                }
            },
            _ => {},
        }
        Ok(model)
    }

    /// The directory a working-directory request names, before it is canonicalized.
    pub fn cwd_candidate(&self, requested: Option<&str>, style: PathStyle) -> (r: String)
        ensures
            r@ == cwd_candidate_of(self@, opt_str(requested), style),
    {
        let raw: Option<String> = match requested {
            Some(q) => {
                let t = trim_text(q);
                if t.as_str().unicode_len() == 0 {
                    None
                } else {
                    Some(t)
                }
            },
            None => None,
        };
        match raw {
            Some(path) => if is_absolute_text(path.as_str(), style) {
                path
            } else {
                join_text(self.working_dir.as_str(), path.as_str(), style)
            },
            None => self.working_dir.clone(),
        }
    }

    /// The working directory of a run. `canonical` is the canonical form of
    /// [`AppConfig::cwd_candidate`] of the request, or `None` when that is not an existing
    /// directory. The directory must lie within an allowed prefix when prefixes are configured.
    pub fn resolve_cwd(
        &self,
        requested: Option<&str>,
        canonical: Option<String>,
        style: PathStyle,
    ) -> (r: Result<String, AppError>)
        ensures
            match cwd_outcome(self@, opt_str(requested), opt_text(canonical), style) {
                Ok(d) => r matches Ok(x) && x@ == d,
                Err(e) => r matches Err(err) && err@ == e,
            },
    {
        let candidate = self.cwd_candidate(requested, style);
        let cwd = match canonicalize_existing_dir(candidate.as_str(), canonical) {
            Ok(c) => c,
            Err(e) => return Err(e),
        };
        match &self.allowed_cwd_prefixes {
            Some(prefixes) => {
                if !starts_with_any(cwd.as_str(), prefixes, style) {
                    return Err(
                        AppError::WorkingDirectoryNotAllowed {
                            cwd,
                            allowed_prefixes: copy_strings(prefixes),
                        },
                    );
                }
            },
            None => {},
        }
        Ok(cwd)
    }
}

/// Whether `cwd` lies within one of `prefixes`.
fn starts_with_any(cwd: &str, prefixes: &Vec<String>, style: PathStyle) -> (b: bool)
    ensures
        b == under_some_prefix(cwd@, views(prefixes@), style),
{
    let mut i: usize = 0;
    while i < prefixes.len()
        invariant
            i <= prefixes.len(),
            forall|k: int| 0 <= k < i ==> !starts_with_in(style, cwd@, views(prefixes@)[k]),
        decreases prefixes.len() - i,
    {
        if path_starts_with_text(cwd, prefixes[i].as_str(), style) {
            assert(starts_with_in(style, cwd@, views(prefixes@)[i as int]));
            return true;
        }
        i = i + 1;
    }
    false
}

/// The canonical form of the directory `path`, where `canonical` is what canonicalizing it gave
/// (`None` when it is not an existing directory).
pub fn canonicalize_existing_dir(path: &str, canonical: Option<String>) -> (r: Result<
    String,
    AppError,
>)
    ensures
        match canonical {
            Some(c) => r == Ok::<String, AppError>(c),
            None => r matches Err(e) && e@ == AppErrorView::InvalidWorkingDirectory(path@),
        },
{
    match canonical {
        Some(c) => Ok(c),
        None => Err(AppError::InvalidWorkingDirectory(String::from_str(path))),
    }
}


// ---------------------------------------------------------------------------
// Finding the binary
// ---------------------------------------------------------------------------

/// The entries of a search-path list: on Unix the `:`-separated pieces; on Windows the
/// `;`-separated pieces, where a `;` between double quotes belongs to the entry and the quotes
/// themselves are dropped (as `std::env::split_paths` yields them). Empty entries are kept.
pub open spec fn path_entries(style: PathStyle, value: Seq<char>) -> Seq<Seq<char>> {
    match style {
        PathStyle::Unix => split(value, ':'),
        PathStyle::Windows => windows_entries_from(value, 0, Seq::empty(), false),
    }
}

/// The Windows entries of `value` from index `i` on, where `cur` is the entry read so far and
/// `in_quote` whether the scan is between double quotes.
pub open spec fn windows_entries_from(value: Seq<char>, i: int, cur: Seq<char>, in_quote: bool) -> Seq<
    Seq<char>,
>
    decreases value.len() - i,
{
    if i < 0 || i >= value.len() {
        seq![cur]
    } else if value[i] == '"' {
        windows_entries_from(value, i + 1, cur, !in_quote)
    } else if value[i] == ';' && !in_quote {
        seq![cur] + windows_entries_from(value, i + 1, Seq::empty(), false)
    } else {
        windows_entries_from(value, i + 1, cur.push(value[i]), in_quote)
    }
}

/// The extensions under which a command is also looked for on Windows, in order.
pub open spec fn windows_extensions() -> Seq<Seq<char>> {
    seq![".exe"@, ".cmd"@, ".bat"@]
}

/// The paths at which a command is looked for in one directory: the command joined onto it, then
/// on Windows the command with each extension joined onto it.
pub open spec fn dir_candidates(style: PathStyle, dir: Seq<char>, command: Seq<char>) -> Seq<
    Seq<char>,
> {
    match style {
        PathStyle::Unix => seq![join_in(style, dir, command)],
        PathStyle::Windows => seq![
            join_in(style, dir, command),
            join_in(style, dir, command + ".exe"@),
            join_in(style, dir, command + ".cmd"@),
            join_in(style, dir, command + ".bat"@),
        ],
    }
}

/// The candidates of each directory of `dirs`, in order.
pub open spec fn all_dir_candidates(style: PathStyle, dirs: Seq<Seq<char>>, command: Seq<char>) -> Seq<
    Seq<char>,
>
    decreases dirs.len(),
{
    if dirs.len() == 0 {
        Seq::empty()
    } else {
        all_dir_candidates(style, dirs.drop_last(), command) + dir_candidates(
            style,
            dirs.last(),
            command,
        )
    }
}

/// Where to look for a command: the command itself when it names a path of more than one
/// component (`direct`), and otherwise the candidates of each entry of the search path, in order
/// (none when the search path is unset).
pub open spec fn binary_candidates_of(
    command: Seq<char>,
    path_var: Option<Seq<char>>,
    style: PathStyle,
) -> (bool, Seq<Seq<char>>) {
    if components_in(style, command).len() > 1 {
        (true, seq![command])
    } else {
        match path_var {
            None => (false, Seq::empty()),
            Some(pv) => (false, all_dir_candidates(style, path_entries(style, pv), command)),
        }
    }
}

/// The first candidate, from index `i` on, whose probe found it.
pub open spec fn first_found_from(cands: Seq<Seq<char>>, found: Seq<bool>, i: int) -> Option<
    Seq<char>,
>
    decreases cands.len() - i,
{
    if i < 0 || i >= cands.len() || i >= found.len() {
        None
    } else if found[i] {
        Some(cands[i])
    } else {
        first_found_from(cands, found, i + 1)
    }
}

/// The paths at which to look for a command, and whether the command is a path itself.
pub struct BinaryLookup {
    /// The command names a path: check that it exists. Otherwise check that each candidate is a
    /// file.
    pub direct: bool,
    /// The paths to check, in order.
    pub candidates: Vec<String>,
}

/// The paths at which `command` is looked for in the directory `dir`.
fn dir_candidates_exec(style: PathStyle, dir: &str, command: &str) -> (r: Vec<String>)
    ensures
        views(r@) == dir_candidates(style, dir@, command@),
{
    let mut v: Vec<String> = Vec::new();
    v.push(join_text(dir, command, style));
    match style {
        PathStyle::Unix => {},
        PathStyle::Windows => {
            let exe = String::from_str(command).concat(".exe");
            let cmd = String::from_str(command).concat(".cmd");
            let bat = String::from_str(command).concat(".bat");
            v.push(join_text(dir, exe.as_str(), style));
            v.push(join_text(dir, cmd.as_str(), style));
            v.push(join_text(dir, bat.as_str(), style));
        },
    }
    assert(views(v@) =~= dir_candidates(style, dir@, command@));
    v
}

/// Where to look for `command`, given the value of the `PATH` variable.
pub fn binary_lookup(command: &str, path_var: Option<&str>, style: PathStyle) -> (r: BinaryLookup)
    ensures
        r.direct == binary_candidates_of(command@, opt_str(path_var), style).0,
        views(r.candidates@) == binary_candidates_of(command@, opt_str(path_var), style).1,
{
    let comps = path_components(command, style);
    if comps.len() > 1 {
        let mut v: Vec<String> = Vec::new();
        v.push(String::from_str(command));
        assert(views(v@) =~= seq![command@]);
        return BinaryLookup { direct: true, candidates: v };
    }
    match path_var {
        None => {
            let v: Vec<String> = Vec::new();
            assert(views(v@) =~= Seq::<Seq<char>>::empty());
            BinaryLookup { direct: false, candidates: v }
        },
        Some(pv) => {
            let entries = split_paths(pv, style);
            let mut v: Vec<String> = Vec::new();
            let mut i: usize = 0;
            assert(views(entries@).subrange(0, 0) =~= Seq::<Seq<char>>::empty());
            while i < entries.len()
                invariant
                    i <= entries.len(),
                    views(v@) == all_dir_candidates(
                        style,
                        views(entries@).subrange(0, i as int),
                        command@,
                    ),
                decreases entries.len() - i,
            {
                let ghost sub = views(entries@).subrange(0, i + 1);
                assert(sub.drop_last() =~= views(entries@).subrange(0, i as int));
                assert(sub.last() == entries@[i as int]@);
                let more = dir_candidates_exec(style, entries[i].as_str(), command);
                let ghost before = views(v@);
                let mut k: usize = 0;
                assert(views(more@).subrange(0, 0) =~= Seq::<Seq<char>>::empty());
                assert(before + views(more@).subrange(0, 0) =~= before);
                while k < more.len()
                    invariant
                        k <= more.len(),
                        views(v@) == before + views(more@).subrange(0, k as int),
                    decreases more.len() - k,
                {
                    let ghost prev = v@;
                    v.push(more[k].clone());
                    assert(views(v@) =~= views(prev).push(more@[k as int]@));
                    assert(views(more@).subrange(0, k + 1) =~= views(more@).subrange(
                        0,
                        k as int,
                    ).push(more@[k as int]@));
                    k = k + 1;
                }
                assert(views(more@).subrange(0, more.len() as int) =~= views(more@));
                i = i + 1;
            }
            assert(views(entries@).subrange(0, entries.len() as int) =~= views(entries@));
            BinaryLookup { direct: false, candidates: v }
        },
    }
}

/// The entries of a search-path list (`std::env::split_paths`), in the given style.
pub fn split_paths(value: &str, style: PathStyle) -> (r: Vec<String>)
    ensures
        views(r@) == path_entries(style, value@),
{
    match style {
        PathStyle::Unix => split_text(value, ':'),
        PathStyle::Windows => split_windows_entries(value),
    }
}

/// The Windows entries of a search-path list.
fn split_windows_entries(value: &str) -> (r: Vec<String>)
    ensures
        views(r@) == windows_entries_from(value@, 0, Seq::empty(), false),
{
    let v = chars_of(value);
    let n = v.len();
    let mut out: Vec<String> = Vec::new();
    let mut cur = String::new();
    let mut run: usize = 0;
    let mut i: usize = 0;
    let mut in_quote = false;
    assert(value@.subrange(0, 0) =~= Seq::<char>::empty());
    assert(cur@ + value@.subrange(0, 0) =~= Seq::<char>::empty());
    while i < n
        invariant
            run <= i <= n,
            n == v.len(),
            v@ == value@,
            views(out@) + windows_entries_from(
                value@,
                i as int,
                cur@ + value@.subrange(run as int, i as int),
                in_quote,
            ) == windows_entries_from(value@, 0, Seq::empty(), false),
        decreases n - i,
    {
        let c = v[i];
        let ghost acc = cur@ + value@.subrange(run as int, i as int);
        if c == '"' {
            cur.append(value.substring_char(run, i));
            in_quote = !in_quote;
            i = i + 1;
            run = i;
            assert(cur@ + value@.subrange(run as int, i as int) =~= acc);
        } else if c == ';' && !in_quote {
            cur.append(value.substring_char(run, i));
            let ghost prev = out@;
            let piece = cur;
            assert(piece@ =~= acc);
            out.push(piece);
            cur = String::new();
            in_quote = false;
            i = i + 1;
            run = i;
            assert(views(out@) =~= views(prev).push(acc));
            assert(cur@ + value@.subrange(run as int, i as int) =~= Seq::<char>::empty());
            assert(views(prev) + (seq![acc] + windows_entries_from(
                value@,
                i as int,
                Seq::<char>::empty(),
                false,
            )) =~= views(out@) + windows_entries_from(
                value@,
                i as int,
                Seq::<char>::empty(),
                false,
            ));
        } else {
            i = i + 1;
            assert(cur@ + value@.subrange(run as int, i as int) =~= acc.push(c));
        }
    }
    cur.append(value.substring_char(run, n));
    let ghost prev = out@;
    let ghost last = cur@;
    out.push(cur);
    assert(views(out@) =~= views(prev).push(last));
    assert(views(prev) + seq![last] =~= views(out@));
    out
}

impl AppConfig {
    /// Where to look for the configured binary, given the value of the `PATH` variable.
    pub fn binary_lookup(&self, path_var: Option<&str>, style: PathStyle) -> (r: BinaryLookup)
        ensures
            r.direct == binary_candidates_of(self@.gemini_bin, opt_str(path_var), style).0,
            views(r.candidates@) == binary_candidates_of(
                self@.gemini_bin,
                opt_str(path_var),
                style,
            ).1,
    {
        binary_lookup(self.gemini_bin.as_str(), path_var, style)
    }

    /// The path of the configured binary: the first candidate of [`AppConfig::binary_lookup`]
    /// whose probe in `found` succeeded (the same index; a missing probe counts as failed).
    pub fn resolve_binary_path(
        &self,
        path_var: Option<&str>,
        found: &Vec<bool>,
        style: PathStyle,
    ) -> (r: Option<String>)
        ensures
            opt_text(r) == first_found_from(
                binary_candidates_of(self@.gemini_bin, opt_str(path_var), style).1,
                found@,
                0,
            ),
    {
        let lookup = self.binary_lookup(path_var, style);
        let cands = lookup.candidates;
        let ghost cv = views(cands@);
        let mut i: usize = 0;
        while i < cands.len() && i < found.len()
            invariant
                i <= cands.len(),
                cv == views(cands@),
                cv == binary_candidates_of(self@.gemini_bin, opt_str(path_var), style).1,
                first_found_from(cv, found@, 0) == first_found_from(cv, found@, i as int),
            decreases cands.len() - i,
        {
            if found[i] {
                assert(cv[i as int] == cands@[i as int]@);
                return Some(cands[i].clone());
            }
            i = i + 1;
        }
        None
    }
}

// ---------------------------------------------------------------------------
// Reading the configuration from the environment
// ---------------------------------------------------------------------------

/// What the environment holds for a variable (`std::env::var`).
#[derive(Debug)]
pub enum EnvValue {
    /// The variable is unset.
    NotPresent,
    /// The variable is set, but not to valid unicode.
    NotUnicode,
    /// The variable's value.
    Present(String),
}

/// What a numeric setting gives: its value, the default when unset, or why it is invalid.
pub open spec fn u64_setting_outcome(name: Seq<char>, value: EnvValue, default_value: u64) -> Result<
    u64,
    AppErrorView,
> {
    match value {
        EnvValue::NotPresent => Ok(default_value),
        EnvValue::NotUnicode => Err(AppErrorView::InvalidConfiguration(name + " must be valid unicode"@)),
        EnvValue::Present(v) => match parse_u64_spec(v@) {
            Ok(n) => Ok(n as u64),
            Err(e) => Err(
                AppErrorView::InvalidConfiguration(
                    "failed to parse "@ + name + " as u64: "@ + int_parse_error_message(e),
                ),
            ),
        },
    }
}

/// The value of the numeric setting `name`, or `default_value` when it is unset.
pub fn parse_u64_env(name: &str, value: &EnvValue, default_value: u64) -> (r: Result<u64, AppError>)
    ensures
        result_view(r) == u64_setting_outcome(name@, *value, default_value),
{
    match value {
        EnvValue::NotPresent => Ok(default_value),
        EnvValue::NotUnicode => Err(
            AppError::InvalidConfiguration(String::from_str(name).concat(" must be valid unicode")),
        ),
        EnvValue::Present(v) => match parse_u64_text(v.as_str()) {
            Ok(n) => Ok(n),
            Err(e) => {
                let detail = int_parse_error_text(e);
                Err(
                    AppError::InvalidConfiguration(
                        String::from_str("failed to parse ").concat(name).concat(
                            " as u64: ",
                        ).concat(detail.as_str()),
                    ),
                )
            },
        },
    }
}

/// The trimmed pieces of `ps` that are not blank, in order.
pub open spec fn nonblank_trimmed(ps: Seq<Seq<char>>) -> Seq<Seq<char>>
    decreases ps.len(),
{
    if ps.len() == 0 {
        Seq::empty()
    } else {
        let rest = nonblank_trimmed(ps.drop_last());
        if trim(ps.last()).len() == 0 {
            rest
        } else {
            rest.push(trim(ps.last()))
        }
    }
}

/// The models that a comma-separated list names: its trimmed, non-blank entries.
pub open spec fn listed_models(value: Seq<char>) -> Seq<Seq<char>> {
    nonblank_trimmed(split(value, ','))
}

/// The allowlist that a comma-separated list of models gives: the set of its trimmed, non-blank
/// entries, or `None` (every model allowed) when the list is absent or names none.
pub fn parse_allowed_models(value: Option<&str>) -> (r: Option<Vec<String>>)
    ensures
        match value {
            None => r is None,
            Some(v) => if listed_models(v@).len() == 0 {
                r is None
            } else {
                r matches Some(m) && is_sorted_set_of(views(m@), listed_models(v@))
            },
        },
{
    match value {
        None => None,
        Some(v) => {
            let pieces = split_text(v, ',');
            let mut models: Vec<String> = Vec::new();
            let mut i: usize = 0;
            while i < pieces.len()
                invariant
                    i <= pieces.len(),
                    views(pieces@) == split(v@, ','),
                    views(models@) == nonblank_trimmed(views(pieces@).subrange(0, i as int)),
                decreases pieces.len() - i,
            {
                let ghost before = views(pieces@).subrange(0, i as int);
                let ghost after = views(pieces@).subrange(0, i + 1);
                assert(after.drop_last() =~= before);
                let t = trim_text(pieces[i].as_str());
                if t.as_str().unicode_len() != 0 {
                    let ghost prev = models@;
                    models.push(t);
                    assert(views(models@) =~= views(prev).push(t@));
                }
                i = i + 1;
            }
            assert(views(pieces@).subrange(0, pieces.len() as int) =~= views(pieces@));
            if models.len() == 0 {
                None
            } else {
                Some(sorted_set(&models))
            }
        },
    }
}

/// A directory named by the configuration, with its canonical form when it is an existing
/// directory.
#[derive(Debug)]
pub struct DirProbe {
    /// The directory as named.
    pub path: String,
    /// Its canonical form, or `None` when it is not an existing directory.
    pub canonical: Option<String>,
}

/// What the allowed-prefix setting gives: `None` when unset or empty, the canonical prefixes
/// when each names an existing directory, and otherwise the first that does not.
pub open spec fn prefixes_outcome(probes: Option<Seq<DirProbe>>) -> Result<
    Option<Seq<Seq<char>>>,
    AppErrorView,
> {
    match probes {
        None => Ok(None),
        Some(ps) => if ps.len() == 0 {
            Ok(None)
        } else {
            match canonical_all(ps) {
                Ok(cs) => Ok(Some(cs)),
                Err(e) => Err(e),
            }
        },
    }
}

/// The canonical forms of all `ps`, or the error for the first that has none.
pub open spec fn canonical_all(ps: Seq<DirProbe>) -> Result<Seq<Seq<char>>, AppErrorView>
    decreases ps.len(),
{
    if ps.len() == 0 {
        Ok(Seq::empty())
    } else {
        match canonical_all(ps.drop_last()) {
            Err(e) => Err(e),
            Ok(cs) => match ps.last().canonical {
                Some(c) => Ok(cs.push(c@)),
                None => Err(AppErrorView::InvalidWorkingDirectory(ps.last().path@)),
            },
        }
    }
}

/// What the server reads from its environment.
#[derive(Debug)]
pub struct EnvSettings {
    /// `GEMINI_BIN`, when set to valid unicode.
    pub gemini_bin: Option<String>,
    /// `GEMINI_DEFAULT_TIMEOUT_SECS`.
    pub default_timeout_secs: EnvValue,
    /// `GEMINI_MAX_TIMEOUT_SECS`.
    pub max_timeout_secs: EnvValue,
    /// `GEMINI_ALLOWED_MODELS`, when set to valid unicode.
    pub allowed_models: Option<String>,
    /// The entries of `GEMINI_ALLOWED_CWD_PREFIXES` ([`split_paths`]), when it is set, each with
    /// its canonical form.
    pub allowed_cwd_prefixes: Option<Vec<DirProbe>>,
    /// The current directory, or the message of the error that prevented reading it.
    pub working_dir: Result<String, String>,
}

/// What a configuration read from the environment is, or why it is refused. The checks come in
/// this order: the default timeout, the maximum timeout, that the default is at most the
/// maximum, the allowed prefixes, the current directory.
pub open spec fn env_config_outcome(s: EnvSettings) -> Result<(u64, u64, Option<Seq<Seq<char>>>, Seq<char>), AppErrorView> {
    let d = u64_setting_outcome("GEMINI_DEFAULT_TIMEOUT_SECS"@, s.default_timeout_secs, DEFAULT_TIMEOUT_SECS);
    let m = u64_setting_outcome("GEMINI_MAX_TIMEOUT_SECS"@, s.max_timeout_secs, DEFAULT_MAX_TIMEOUT_SECS);
    let probes = match s.allowed_cwd_prefixes {
        Some(v) => Some(v@),
        None => None,
    };
    match (d, m) {
        (Err(e), _) => Err(e),
        (Ok(_), Err(e)) => Err(e),
        (Ok(dv), Ok(mv)) => if dv > mv {
            Err(AppErrorView::InvalidConfiguration(
                "GEMINI_DEFAULT_TIMEOUT_SECS must be <= GEMINI_MAX_TIMEOUT_SECS"@,
            ))
        } else {
            match prefixes_outcome(probes) {
                Err(e) => Err(e),
                Ok(ps) => match s.working_dir {
                    Err(t) => Err(AppErrorView::InvalidConfiguration(
                        "failed to determine current working directory: "@ + t@,
                    )),
                    Ok(w) => Ok((dv, mv, ps, w@)),
                },
            }
        },
    }
}

/// The binary to run: `GEMINI_BIN`, or `gemini` when it is unset.
pub open spec fn env_gemini_bin(s: EnvSettings) -> Seq<char> {
    match s.gemini_bin {
        Some(b) => b@,
        None => "gemini"@,
    }
}

impl AppConfig {
    /// The configuration that the environment describes.
    pub fn from_env_values(settings: EnvSettings) -> (r: Result<Self, AppError>)
        ensures
            match env_config_outcome(settings) {
                Err(e) => r matches Err(err) && err@ == e,
                Ok((d, m, ps, w)) => r matches Ok(c) && {
                    &&& c@.gemini_bin == env_gemini_bin(settings)
                    &&& c@.default_timeout_secs == d
                    &&& c@.max_timeout_secs == m
                    &&& c@.allowed_cwd_prefixes == ps
                    &&& c@.working_dir == w
                    &&& match settings.allowed_models {
                        Some(v) => if listed_models(v@).len() == 0 {
                            c@.allowed_models is None
                        } else {
                            c@.allowed_models matches Some(am) && is_sorted_set_of(
                                am,
                                listed_models(v@),
                            )
                        },
                        None => c@.allowed_models is None,
                    }
                },
            },
    {
        let ghost s0 = settings;
        let EnvSettings {
            gemini_bin,
            default_timeout_secs,
            max_timeout_secs,
            allowed_models,
            allowed_cwd_prefixes,
            working_dir,
        } = settings;
        let gemini_bin = match gemini_bin {
            Some(b) => b,
            None => String::from_str("gemini"),
        };
        let default_secs = match parse_u64_env(
            "GEMINI_DEFAULT_TIMEOUT_SECS",
            &default_timeout_secs,
            DEFAULT_TIMEOUT_SECS,
        ) {
            Ok(v) => v,
            Err(e) => return Err(e),
        };
        let max_secs = match parse_u64_env(
            "GEMINI_MAX_TIMEOUT_SECS",
            &max_timeout_secs,
            DEFAULT_MAX_TIMEOUT_SECS,
        ) {
            Ok(v) => v,
            Err(e) => return Err(e),
        };
        if default_secs > max_secs {
            return Err(
                AppError::InvalidConfiguration(
                    String::from_str("GEMINI_DEFAULT_TIMEOUT_SECS must be <= GEMINI_MAX_TIMEOUT_SECS"),
                ),
            );
        }
        let models = match &allowed_models {
            Some(v) => parse_allowed_models(Some(v.as_str())),
            None => None,
        };
        let prefixes = match allowed_cwd_prefixes {
            None => None,
            Some(probes) => {
                if probes.len() == 0 {
                    None
                } else {
                    match canonical_prefixes(probes) {
                        Ok(cs) => Some(cs),
                        Err(e) => return Err(e),
                    }
                }
            },
        };
        let working_dir = match working_dir {
            Ok(w) => w,
            Err(t) => return Err(
                AppError::InvalidConfiguration(
                    String::from_str("failed to determine current working directory: ").concat(
                        t.as_str(),
                    ),
                ),
            ),
        };
        let config = AppConfig {
            gemini_bin,
            default_timeout_secs: default_secs,
            max_timeout_secs: max_secs,
            allowed_models: models,
            allowed_cwd_prefixes: prefixes,
            working_dir,
        };
        Ok(config)
    }
}

/// The canonical forms of the probed directories, or the error for the first that is not an
/// existing directory.
fn canonical_prefixes(probes: Vec<DirProbe>) -> (r: Result<Vec<String>, AppError>)
    ensures
        match canonical_all(probes@) {
            Ok(cs) => r matches Ok(v) && views(v@) == cs,
            Err(e) => r matches Err(err) && err@ == e,
        },
{
    let mut out: Vec<String> = Vec::new();
    let mut i: usize = 0;
    assert(probes@.subrange(0, 0) =~= Seq::<DirProbe>::empty());
    assert(views(out@) =~= Seq::<Seq<char>>::empty());
    while i < probes.len()
        invariant
            i <= probes.len(),
            canonical_all(probes@.subrange(0, i as int)) == Ok::<Seq<Seq<char>>, AppErrorView>(
                views(out@),
            ),
        decreases probes.len() - i,
    {
        let ghost after = probes@.subrange(0, i + 1);
        assert(after.drop_last() =~= probes@.subrange(0, i as int));
        let probe = &probes[i];
        match &probe.canonical {
            Some(c) => {
                let ghost prev = out@;
                out.push(c.clone());
                assert(views(out@) =~= views(prev).push(c@));
            },
            None => {
                proof {
                    lemma_canonical_all_error_persists(probes@, i + 1);
                }
                return Err(AppError::InvalidWorkingDirectory(probe.path.clone()));
            },
        }
        i = i + 1;
    }
    assert(probes@.subrange(0, probes.len() as int) =~= probes@);
    Ok(out)
}

/// Once a prefix of the probes fails, every longer prefix fails the same way.
proof fn lemma_canonical_all_error_persists(ps: Seq<DirProbe>, n: int)
    requires
        0 <= n <= ps.len(),
        canonical_all(ps.subrange(0, n)) is Err,
    ensures
        canonical_all(ps) == canonical_all(ps.subrange(0, n)),
    decreases ps.len() - n,
{
    if n < ps.len() {
        let next = ps.subrange(0, n + 1);
        assert(next.drop_last() =~= ps.subrange(0, n));
        lemma_canonical_all_error_persists(ps, n + 1);
    } else {
        assert(ps.subrange(0, n) =~= ps);
    }
}


// ---------------------------------------------------------------------------
// Laws
// ---------------------------------------------------------------------------

/// A model that a request is granted is in the allowlist, when one is configured.
pub proof fn lemma_granted_model_is_allowed(c: ConfigView, requested: Option<Seq<char>>, m: Seq<char>)
    requires
        model_outcome(c, requested) == Ok::<Option<Seq<char>>, AppErrorView>(Some(m)),
    ensures
        c.allowed_models matches Some(allowed) ==> allowed.contains(m),
        m == trim(m),
        m.len() > 0,
{
    crate::text::lemma_trim_idempotent(requested.unwrap());
}

/// Without an allowlist every model request is granted, trimmed.
pub proof fn lemma_no_allowlist_grants_all(c: ConfigView, requested: Option<Seq<char>>)
    requires
        c.allowed_models is None,
    ensures
        model_outcome(c, requested) == Ok::<Option<Seq<char>>, AppErrorView>(
            trimmed_request(requested),
        ),
{
}

/// A model that was granted is granted again, unchanged.
pub proof fn lemma_granted_model_granted_again(
    c: ConfigView,
    requested: Option<Seq<char>>,
    m: Seq<char>,
)
    requires
        model_outcome(c, requested) == Ok::<Option<Seq<char>>, AppErrorView>(Some(m)),
    ensures
        model_outcome(c, Some(m)) == Ok::<Option<Seq<char>>, AppErrorView>(Some(m)),
{
    crate::text::lemma_trim_idempotent(requested.unwrap());
}

/// The canonical forms of a list of directory probes are found exactly when every probe has one,
/// and they are then those forms, in the order of the probes.
pub proof fn lemma_canonical_all_forms(ps: Seq<DirProbe>)
    ensures
        (canonical_all(ps) is Ok) <==> (forall|i: int| 0 <= i < ps.len() ==> (#[trigger] ps[i]).canonical is Some),
        canonical_all(ps) matches Ok(cs) ==> {
            &&& cs.len() == ps.len()
            &&& forall|i: int| 0 <= i < ps.len() ==> ((#[trigger] ps[i]).canonical matches Some(c) && cs[i] == c@)
        },
    decreases ps.len(),
{
    if ps.len() > 0 {
        let init = ps.drop_last();
        let n = ps.len() - 1;
        lemma_canonical_all_forms(init);
        assert forall|i: int| 0 <= i < init.len() implies #[trigger] init[i] == ps[i] by {}
        assert(ps.last() == ps[n]);
        match canonical_all(init) {
            Err(_) => {
                let k = choose|k: int| 0 <= k < init.len() && !((#[trigger] init[k]).canonical is Some);
                assert(init[k] == ps[k]);
            },
            Ok(cs0) => match ps.last().canonical {
                Some(c) => {
                    let cs = cs0.push(c@);
                    assert(canonical_all(ps) == Ok::<Seq<Seq<char>>, AppErrorView>(cs));
                    assert forall|i: int| 0 <= i < ps.len() implies ((#[trigger] ps[i]).canonical
                        matches Some(x) && cs[i] == x@) by {
                        if i < n {
                            assert(init[i] == ps[i]);
                        }
                    }
                },
                None => {
                    assert(!(ps[n].canonical is Some));
                },
            },
        }
    }
}

/// The allowed prefixes of a configuration read from the environment are the canonical forms of
/// the listed directories, one for each, in order; the configuration is refused when one of them
/// has none.
pub proof fn lemma_env_prefixes_are_canonical(s: EnvSettings)
    requires
        s.allowed_cwd_prefixes matches Some(v) && v.len() > 0,
    ensures
        env_config_outcome(s) matches Ok((d, m, ps, w)) ==> ps matches Some(cs) && {
            let v = s.allowed_cwd_prefixes.unwrap()@;
            &&& cs.len() == v.len()
            &&& forall|i: int| 0 <= i < v.len() ==> ((#[trigger] v[i]).canonical matches Some(c) && cs[i] == c@)
        },
        (exists|i: int| 0 <= i < s.allowed_cwd_prefixes.unwrap()@.len() && (
            #[trigger] s.allowed_cwd_prefixes.unwrap()@[i]).canonical is None) ==> env_config_outcome(s) is Err,
{
    lemma_canonical_all_forms(s.allowed_cwd_prefixes.unwrap()@);
}

/// A working directory that was granted, when it is absolute and has no white space at either
/// end, is granted again when it is requested as it stands and canonicalizes to itself.
pub proof fn lemma_granted_cwd_granted_again(
    c: ConfigView,
    requested: Option<Seq<char>>,
    canonical: Option<Seq<char>>,
    cwd: Seq<char>,
    style: PathStyle,
)
    requires
        cwd_outcome(c, requested, canonical, style) == Ok::<Seq<char>, AppErrorView>(cwd),
        trim(cwd) == cwd,
        is_absolute_in(style, cwd),
    ensures
        cwd_candidate_of(c, Some(cwd), style) == cwd,
        cwd_outcome(c, Some(cwd), Some(cwd), style) == Ok::<Seq<char>, AppErrorView>(cwd),
{
    if style == PathStyle::Windows {
        crate::winpath::lemma_prefix_len_bound(cwd);
    }
    assert(cwd.len() > 0);
}

/// A working directory that a request is granted lies within an allowed prefix, when prefixes
/// are configured, and is the canonical directory itself.
pub proof fn lemma_granted_cwd_is_within_prefixes(
    c: ConfigView,
    requested: Option<Seq<char>>,
    canonical: Option<Seq<char>>,
    cwd: Seq<char>,
    style: PathStyle,
)
    requires
        cwd_outcome(c, requested, canonical, style) == Ok::<Seq<char>, AppErrorView>(cwd),
    ensures
        canonical == Some(cwd),
        c.allowed_cwd_prefixes matches Some(prefixes) ==> under_some_prefix(cwd, prefixes, style),
{
}

/// A configured prefix grants itself as working directory.
pub proof fn lemma_prefix_grants_itself(
    c: ConfigView,
    requested: Option<Seq<char>>,
    i: int,
    style: PathStyle,
)
    requires
        c.allowed_cwd_prefixes matches Some(prefixes) && 0 <= i < prefixes.len(),
    ensures
        cwd_outcome(c, requested, Some(c.allowed_cwd_prefixes.unwrap()[i]), style) == Ok::<
            Seq<char>,
            AppErrorView,
        >(c.allowed_cwd_prefixes.unwrap()[i]),
{
    crate::path::lemma_path_starts_with_itself(style, c.allowed_cwd_prefixes.unwrap()[i]);
}


/// Two sorted lists without duplicates that hold the same texts are the same list.
pub proof fn lemma_sorted_set_unique(m1: Seq<Seq<char>>, m2: Seq<Seq<char>>)
    requires
        strictly_sorted(m1),
        strictly_sorted(m2),
        forall|x: Seq<char>| m1.contains(x) <==> m2.contains(x),
    ensures
        m1 == m2,
    decreases m1.len(),
{
    if m1.len() == 0 {
        if m2.len() > 0 {
            assert(m2.contains(m2[0]));
        }
        assert(m1 =~= m2);
    } else {
        assert(m1.contains(m1[0]));
        let j = choose|j: int| 0 <= j < m2.len() && m2[j] == m1[0];
        assert(m2.contains(m2[0]));
        let k = choose|k: int| 0 <= k < m1.len() && m1[k] == m2[0];
        if j > 0 {
            assert(text_less(m2[0], m2[j]));
            if k > 0 {
                assert(text_less(m1[0], m1[k]));
                lemma_text_less_total(m1[0], m2[0]);
            } else {
                crate::text::lemma_text_less_irreflexive(m1[0]);
            }
        }
        assert(m1[0] == m2[0]);
        let r1 = m1.drop_first();
        let r2 = m2.drop_first();
        assert forall|x: Seq<char>| r1.contains(x) <==> r2.contains(x) by {
            if r1.contains(x) {
                let a = choose|a: int| 0 <= a < r1.len() && r1[a] == x;
                assert(m1[a + 1] == x);
                assert(text_less(m1[0], m1[a + 1]));
                crate::text::lemma_text_less_irreflexive(x);
                assert(m2.contains(x));
                let b = choose|b: int| 0 <= b < m2.len() && m2[b] == x;
                assert(b != 0);
                assert(r2[b - 1] == x);
            }
            if r2.contains(x) {
                let a = choose|a: int| 0 <= a < r2.len() && r2[a] == x;
                assert(m2[a + 1] == x);
                assert(text_less(m2[0], m2[a + 1]));
                crate::text::lemma_text_less_irreflexive(x);
                assert(m1.contains(x));
                let b = choose|b: int| 0 <= b < m1.len() && m1[b] == x;
                assert(b != 0);
                assert(r1[b - 1] == x);
            }
        }
        lemma_sorted_set_unique(r1, r2);
        assert(m1 =~= seq![m1[0]] + r1);
        assert(m2 =~= seq![m2[0]] + r2);
    }
}

/// The allowlist depends on the set of listed models only: lists naming the same models, in any
/// order and with any repetition, give the same allowlist.
pub proof fn lemma_allowlist_depends_on_set_only(
    m1: Seq<Seq<char>>,
    items1: Seq<Seq<char>>,
    m2: Seq<Seq<char>>,
    items2: Seq<Seq<char>>,
)
    requires
        is_sorted_set_of(m1, items1),
        is_sorted_set_of(m2, items2),
        forall|x: Seq<char>| items1.contains(x) <==> items2.contains(x),
    ensures
        m1 == m2,
{
    lemma_sorted_set_unique(m1, m2);
}


/// A working-directory request is resolved inside the configured working directory when joining
/// it keeps that directory ([`join_keeps_base`]: on Unix, when the request is not absolute): a
/// relative request is joined onto it, and an absent or blank one is the directory itself.
pub proof fn lemma_relative_cwd_within_working_dir(
    c: ConfigView,
    requested: Option<Seq<char>>,
    style: PathStyle,
)
    requires
        trimmed_request(requested) matches Some(p) ==> join_keeps_base(style, c.working_dir, p),
    ensures
        starts_with_in(style, cwd_candidate_of(c, requested, style), c.working_dir),
        trimmed_request(requested) is None ==> cwd_candidate_of(c, requested, style)
            == c.working_dir,
{
    match trimmed_request(requested) {
        Some(p) => crate::path::lemma_join_stays_within(style, c.working_dir, p),
        None => crate::path::lemma_path_starts_with_itself(style, c.working_dir),
    }
}

/// A timeout is granted exactly when it is positive and at most the configured maximum; the
/// timeout granted is the one asked for, or the default.
pub proof fn lemma_timeout_granted_within_bounds(c: ConfigView, requested: Option<u64>)
    ensures
        (timeout_outcome(c, requested) is Ok) <==> (0 < chosen_timeout(c, requested)
            <= c.max_timeout_secs),
        timeout_outcome(c, requested) matches Ok(t) ==> t == chosen_timeout(c, requested),
{
}

/// In a configuration read from the environment the default timeout is at most the maximum, so
/// a request that names no timeout is granted the default whenever it is positive.
pub proof fn lemma_env_default_timeout_granted(s: EnvSettings, c: ConfigView)
    requires
        env_config_outcome(s) matches Ok((d, m, _, _)) && c.default_timeout_secs == d
            && c.max_timeout_secs == m,
        c.default_timeout_secs > 0,
    ensures
        c.default_timeout_secs <= c.max_timeout_secs,
        timeout_outcome(c, None) == Ok::<u64, AppErrorView>(c.default_timeout_secs),
{
}

/// Unset timeout settings give the documented defaults: 600 seconds, at most 1800.
pub proof fn lemma_env_timeout_defaults(s: EnvSettings)
    requires
        s.default_timeout_secs is NotPresent,
        s.max_timeout_secs is NotPresent,
        s.allowed_cwd_prefixes is None,
        s.working_dir is Ok,
    ensures
        env_config_outcome(s) matches Ok((d, m, _, _)) && d == 600 && m == 1800,
{
}

} // verus!
