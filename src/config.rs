//! Configuration state: the config directory, the global settings and the
//! widget definitions loaded from it, keyed by path.

use vstd::prelude::*;
use vstd::string::*;
use crate::placement::WidgetPlacement;

verus! {

/// One widget definition file, as loaded. Replaced whole when its file changes.
#[derive(Debug)]
pub struct WidgetConfig {
    /// Path of the definition file; identifies the widget.
    pub path: String,
    pub placement: WidgetPlacement,
    /// Whether the `startup` command opens this widget.
    pub autostart: bool,
    /// Widget settings handed to the widget as they are.
    pub settings: String,
}

impl Clone for WidgetConfig {
    fn clone(&self) -> (r: Self)
        ensures
            r == *self,
    {
        WidgetConfig {
            path: self.path.clone(),
            placement: self.placement,
            autostart: self.autostart,
            settings: self.settings.clone(),
        }
    }
}

/// Why a configuration could not be used.
#[derive(Clone, Debug, PartialEq, Eq)]
pub enum ConfigError {
    /// No widget definition is loaded under this path.
    NotFound(String),
    /// Two widget definitions claim this path.
    DuplicatePath(String),
    /// The file at this path could not be read or parsed.
    Malformed(String),
}

/// What a file change in the config directory touches.
#[derive(Clone, Copy, Debug, PartialEq, Eq, Structural)]
pub enum ConfigChange {
    Settings,
    WidgetConfigs,
    Unrelated,
}

pub open spec fn unique_paths(ws: Seq<WidgetConfig>) -> bool {
    forall|i: int, j: int| 0 <= i < ws.len() && 0 <= j < ws.len() && i != j ==> ws[i].path@ != ws[j].path@
}

pub open spec fn has_path(ws: Seq<WidgetConfig>, path: Seq<char>) -> bool {
    exists|i: int| 0 <= i < ws.len() && ws[i].path@ == path
}

pub open spec fn is_autostart(c: WidgetConfig) -> bool {
    c.autostart
}

/// The widget definitions that the `startup` command opens, in load order.
pub open spec fn startup_set(ws: Seq<WidgetConfig>) -> Seq<WidgetConfig> {
    ws.filter(|c: WidgetConfig| is_autostart(c))
}

pub open spec fn is_separator(c: char) -> bool {
    c == '/' || c == '\\'
}

/// A path that names its location on its own: rooted, or with a drive letter.
pub open spec fn is_absolute(p: Seq<char>) -> bool {
    (p.len() >= 1 && is_separator(p[0])) || (p.len() >= 2 && p[1] == ':')
}

/// A path resolved against the config directory.
pub open spec fn joined(dir: Seq<char>, p: Seq<char>) -> Seq<char> {
    if is_absolute(p) {
        p
    } else if dir.len() > 0 && is_separator(dir.last()) {
        dir + p
    } else {
        dir + seq!['/'] + p
    }
}

pub open spec fn json_suffix() -> Seq<char> {
    seq!['.', 'j', 's', 'o', 'n']
}

pub open spec fn ends_with(s: Seq<char>, suffix: Seq<char>) -> bool {
    s.len() >= suffix.len() && s.subrange(s.len() - suffix.len(), s.len() as int) == suffix
}

/// Name of the global settings file inside the config directory.
pub open spec fn settings_file_name() -> Seq<char> {
    seq!['s', 'e', 't', 't', 'i', 'n', 'g', 's', '.', 'j', 's', 'o', 'n']
}

/// How a changed file is classified: the settings file, another JSON file
/// (a widget definition), or neither.
pub open spec fn classify(dir: Seq<char>, changed: Seq<char>) -> ConfigChange {
    if changed == joined(dir, settings_file_name()) {
        ConfigChange::Settings
    } else if ends_with(changed, json_suffix()) {
        ConfigChange::WidgetConfigs
    } else {
        ConfigChange::Unrelated
    }
}

/// Configuration loaded from one directory.
pub struct Config {
    config_dir: String,
    settings: String,
    widget_configs: Vec<WidgetConfig>,
}

fn str_to_string(s: &str) -> (r: String)
    ensures
        r@ == s@,
{
    String::from_str(s)
}

/// Whether a path names its location on its own.
pub fn path_is_absolute(p: &str) -> (r: bool)
    ensures
        r == is_absolute(p@),
{
    let n = p.unicode_len();
    if n >= 1 {
        let c = p.get_char(0);
        if c == '/' || c == '\\' {
            return true;
        }
    }
    n >= 2 && p.get_char(1) == ':'
}

/// Resolves a path against a directory; an absolute path stays as it is.
pub fn join_path(dir: &str, p: &str) -> (r: String)
    ensures
        r@ == joined(dir@, p@),
{
    if path_is_absolute(p) {
        return str_to_string(p);
    }
    let mut r = str_to_string(dir);
    let n = dir.unicode_len();
    if !(n > 0 && (dir.get_char(n - 1) == '/' || dir.get_char(n - 1) == '\\')) {
        r.append("/");
        proof {
            reveal_strlit("/");
        }
    }
    r.append(p);
    r
}

/// Whether a path ends in `.json`.
pub fn has_json_extension(p: &str) -> (r: bool)
    ensures
        r == ends_with(p@, json_suffix()),
{
    let n = p.unicode_len();
    if n < 5 {
        return false;
    }
    let r = p.get_char(n - 5) == '.' && p.get_char(n - 4) == 'j' && p.get_char(n - 3) == 's'
        && p.get_char(n - 2) == 'o' && p.get_char(n - 1) == 'n';
    assert(r == (p@.subrange(n - 5, n as int) =~= json_suffix()));
    r
}

/// Index of the definition loaded under `path`, if any.
fn position_of(ws: &Vec<WidgetConfig>, path: &String) -> (r: Option<usize>)
    ensures
        match r {
            Some(i) => i < ws.len() && ws@[i as int].path@ == path@,
            None => !has_path(ws@, path@),
        },
{
    let mut i: usize = 0;
    while i < ws.len()
        invariant
            i <= ws.len(),
            forall|j: int| 0 <= j < i ==> ws@[j].path@ != path@,
        decreases ws.len() - i,
    {
        if ws[i].path == *path {
            return Some(i);
        }
        i += 1;
    }
    None
}

/// Checks that no two definitions share a path; names the first repeated one.
pub fn check_unique_paths(ws: &Vec<WidgetConfig>) -> (r: Result<(), ConfigError>)
    ensures
        r is Ok <==> unique_paths(ws@),
        r matches Err(ConfigError::DuplicatePath(p)) ==> (exists|i: int, j: int|
            0 <= i < j < ws.len() && ws@[i].path@ == p@ && ws@[j].path@ == p@),
        r matches Err(e) ==> e is DuplicatePath,
{
    let mut j: usize = 0;
    while j < ws.len()
        invariant
            j <= ws.len(),
            forall|a: int, b: int| 0 <= a < j && 0 <= b < j && a != b ==> ws@[a].path@ != ws@[b].path@,
        decreases ws.len() - j,
    {
        let mut i: usize = 0;
        while i < j
            invariant
                i <= j < ws.len(),
                forall|a: int| 0 <= a < i ==> ws@[a].path@ != ws@[j as int].path@,
            decreases j - i,
        {
            if ws[i].path == ws[j].path {
                return Err(ConfigError::DuplicatePath(ws[j].path.clone()));
            }
            i += 1;
        }
        j += 1;
    }
    Ok(())
}

impl Config {
    pub closed spec fn dir(&self) -> Seq<char> {
        self.config_dir@
    }

    pub closed spec fn settings_text(&self) -> Seq<char> {
        self.settings@
    }

    pub closed spec fn widgets(&self) -> Seq<WidgetConfig> {
        self.widget_configs@
    }

    pub open spec fn wf(&self) -> bool {
        unique_paths(self.widgets())
    }

    /// Builds the configuration from what was loaded; fails when two widget
    /// definitions share a path.
    pub fn new(config_dir: String, settings: String, widget_configs: Vec<WidgetConfig>) -> (r: Result<Config, ConfigError>)
        ensures
            r is Ok <==> unique_paths(widget_configs@),
            r matches Ok(c) ==> c.wf() && c.dir() == config_dir@ && c.settings_text() == settings@
                && c.widgets() == widget_configs@,
            r matches Err(e) ==> e is DuplicatePath,
    {
        match check_unique_paths(&widget_configs) {
            Ok(()) => Ok(Config { config_dir, settings, widget_configs }),
            Err(e) => Err(e),
        }
    }

    pub fn config_dir(&self) -> (r: &String)
        ensures
            r@ == self.dir(),
    {
        &self.config_dir
    }

    pub fn settings(&self) -> (r: &String)
        ensures
            r@ == self.settings_text(),
    {
        &self.settings
    }

    pub fn widget_configs(&self) -> (r: &Vec<WidgetConfig>)
        ensures
            r@ == self.widgets(),
    {
        &self.widget_configs
    }

    /// Resolves a path against the config directory.
    pub fn join_config_dir(&self, path: &str) -> (r: String)
        ensures
            r@ == joined(self.dir(), path@),
    {
        join_path(self.config_dir.as_str(), path)
    }

    /// The definition loaded under `path`, if any.
    pub fn widget_config_by_path(&self, path: &String) -> (r: Option<WidgetConfig>)
        ensures
            r is Some <==> has_path(self.widgets(), path@),
            r matches Some(c) ==> c.path@ == path@ && self.widgets().contains(c),
    {
        match position_of(&self.widget_configs, path) {
            Some(i) => Some(self.widget_configs[i].clone()),
            None => None,
        }
    }

    /// The definitions flagged to open at startup, in load order.
    pub fn startup_widget_configs(&self) -> (r: Vec<WidgetConfig>)
        ensures
            r@ == startup_set(self.widgets()),
    {
        let ws = &self.widget_configs;
        let mut r: Vec<WidgetConfig> = Vec::new();
        let mut i: usize = 0;
        while i < ws.len()
            invariant
                i <= ws.len(),
                r@ == startup_set(ws@.take(i as int)),
            decreases ws.len() - i,
        {
            proof {
                assert(ws@.take(i + 1) =~= ws@.take(i as int).push(ws@[i as int]));
                ws@.take(i as int).lemma_filter_push(ws@[i as int], |c: WidgetConfig| is_autostart(c));
            }
            if ws[i].autostart {
                r.push(ws[i].clone());
            }
            i += 1;
        }
        assert(ws@.take(ws.len() as int) =~= ws@);
        r
    }

    /// Classifies a changed file of the config directory.
    pub fn classify_change(&self, changed: &str) -> (r: ConfigChange)
        ensures
            r == classify(self.dir(), changed@),
    {
        let name = "settings.json";
        proof {
            reveal_strlit("settings.json");
        }
        assert(name@ =~= settings_file_name());
        let settings_path = self.join_config_dir(name);
        let changed_s = str_to_string(changed);
        if settings_path == changed_s {
            ConfigChange::Settings
        } else if has_json_extension(changed) {
            ConfigChange::WidgetConfigs
        } else {
            ConfigChange::Unrelated
        }
    }

    /// Takes a reloaded settings file.
    pub fn replace_settings(&mut self, settings: String)
        ensures
            final(self).settings_text() == settings@,
            final(self).dir() == old(self).dir(),
            final(self).widgets() == old(self).widgets(),
    {
        self.settings = settings;
    }

    /// Takes a reloaded set of widget definitions; on a repeated path the
    /// configuration is left as it was.
    pub fn replace_widget_configs(&mut self, widget_configs: Vec<WidgetConfig>) -> (r: Result<(), ConfigError>)
        ensures
            r is Ok <==> unique_paths(widget_configs@),
            r is Ok ==> final(self).widgets() == widget_configs@,
            r is Err ==> final(self).widgets() == old(self).widgets(),
            r matches Err(e) ==> e is DuplicatePath,
            final(self).dir() == old(self).dir(),
            final(self).settings_text() == old(self).settings_text(),
    {
        match check_unique_paths(&widget_configs) {
            Ok(()) => {
                self.widget_configs = widget_configs;
                Ok(())
            },
            Err(e) => Err(e),
        }
    }
}

} // verus!
