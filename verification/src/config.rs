//! Where the server listens, where its assets lie, and which endpoints and models it uses.
use vstd::prelude::*;

use crate::text::{
    back_is_bare, decimal, digits_of, drop_back, drop_back_stops, halves, join, lines, lines_of,
    parse_u16, same, spelled_number, split_at_the_first_mark, split_once, trim, trim_back, trimmed,
    views, written_number_reads_back, Class,
};

verus! {

pub const DEFAULT_JEV_BASE: &'static str = "https://openrouter.ai/api";

pub const DEFAULT_JEV_MODEL: &'static str = "jev-latest";

pub const DEFAULT_DRAFT_BASE: &'static str = "https://openrouter.ai/api/v1";

pub const DEFAULT_DRAFT_MODEL: &'static str = "deepseek/deepseek-chat-v3.1";

pub const DEFAULT_VISION_BASE: &'static str = "https://openrouter.ai/api/v1";

/// A model trained natively on Chinese that reads chat layouts well and cheaply.
pub const DEFAULT_VISION_MODEL: &'static str = "qwen/qwen3.7-flash";

/// The names of the settings: a base URL and a model for each of the three services. There is
/// none for a key.
pub const JEV_BASE_NAME: &'static str = "TYPESAFE_BASE_URL";

pub const JEV_MODEL_NAME: &'static str = "TYPESAFE_MODEL";

pub const DRAFT_BASE_NAME: &'static str = "TEXT_MODEL_BASE_URL";

pub const DRAFT_MODEL_NAME: &'static str = "TEXT_MODEL";

pub const VISION_BASE_NAME: &'static str = "VISION_MODEL_BASE_URL";

pub const VISION_MODEL_NAME: &'static str = "VISION_MODEL";

pub const DEFAULT_PORT: u16 = 8778;

/// Loopback, so that a server on a laptop stays private.
pub const DEFAULT_HOST: &'static str = "127.0.0.1";

/// Endpoints and default model names. It holds no credentials.
#[derive(Debug, PartialEq)]
pub struct Config {
    pub jev_base: String,
    pub jev_model: String,
    pub draft_base: String,
    pub draft_model: String,
    pub vision_base: String,
    pub vision_model: String,
}

/// A setting: its name and its value.
pub type Setting = (Seq<char>, Seq<char>);

/// The settings that a list says.
pub open spec fn setting_views(list: Seq<(String, String)>) -> Seq<Setting> {
    list.map_values(|entry: (String, String)| (entry.0@, entry.1@))
}

/// The settings whose value is not empty.
pub open spec fn filled(settings: Seq<Setting>) -> Seq<Setting>
    decreases settings.len(),
{
    if settings.len() == 0 {
        Seq::empty()
    } else if settings.last().1.len() > 0 {
        filled(settings.drop_last()).push(settings.last())
    } else {
        filled(settings.drop_last())
    }
}

/// The setting on a line: `name=value`, with white space around both dropped. A line that
/// begins with `#`, one without `=`, and one without a value have none.
pub open spec fn line_setting(line: Seq<char>) -> Option<Setting> {
    let line = trimmed(line);
    if line.len() > 0 && line[0] == '#' {
        None
    } else {
        match halves(line, '=') {
            Some((name, value)) => if trimmed(value).len() > 0 {
                Some((trimmed(name), trimmed(value)))
            } else {
                None
            },
            None => None,
        }
    }
}

/// The settings on some lines, in order.
pub open spec fn line_settings(lines: Seq<Seq<char>>) -> Seq<Setting>
    decreases lines.len(),
{
    if lines.len() == 0 {
        Seq::empty()
    } else {
        match line_setting(lines.last()) {
            Some(setting) => line_settings(lines.drop_last()).push(setting),
            None => line_settings(lines.drop_last()),
        }
    }
}

/// The settings in some files, in order.
pub open spec fn file_settings(files: Seq<Seq<char>>) -> Seq<Setting>
    decreases files.len(),
{
    if files.len() == 0 {
        Seq::empty()
    } else {
        file_settings(files.drop_last()) + line_settings(lines_of(files.last()))
    }
}

/// The value of the first setting with this name.
pub open spec fn value_of(settings: Seq<Setting>, name: Seq<char>) -> Option<Seq<char>>
    decreases settings.len(),
{
    if settings.len() == 0 {
        None
    } else if settings[0].0 == name {
        Some(settings[0].1)
    } else {
        value_of(settings.drop_first(), name)
    }
}

/// All settings: those of the environment that are not empty, and then those of the files.
pub open spec fn all_settings(env: Seq<Setting>, files: Seq<Seq<char>>) -> Seq<Setting> {
    filled(env) + file_settings(files)
}

/// The value of a setting, or a fallback.
pub open spec fn setting_or(
    settings: Seq<Setting>,
    name: Seq<char>,
    fallback: Seq<char>,
) -> Seq<char> {
    match value_of(settings, name) {
        Some(value) => value,
        None => fallback,
    }
}

/// A base URL without the slashes at its end.
pub open spec fn bare_url(url: Seq<char>) -> Seq<char> {
    drop_back(url, Class::Only('/'))
}

/// The value, or the fallback, without the slashes at its end.
pub fn trim_slash(value: Option<&String>, fallback: &str) -> (res: String)
    ensures
        res@ == bare_url(
            match value {
                Some(given) => given@,
                None => fallback@,
            },
        ),
{
    let url = match value {
        Some(given) => given.as_str(),
        None => fallback,
    };
    trim_back(url, &Class::Only('/')).to_owned()
}

fn read_line(line: &str) -> (res: Option<(String, String)>)
    ensures
        match res {
            Some(entry) => line_setting(line@) == Some((entry.0@, entry.1@)),
            None => line_setting(line@) is None,
        },
{
    let line = trim(line);
    if !line.is_empty() && line.get_char(0) == '#' {
        return None;
    }
    match split_once(line, '=') {
        Some((name, value)) => {
            let value = trim(value);
            if value.is_empty() {
                None
            } else {
                Some((trim(name).to_owned(), value.to_owned()))
            }
        },
        None => None,
    }
}

/// The settings in the text of a settings file.
pub fn read_settings(text: &str) -> (res: Vec<(String, String)>)
    ensures
        setting_views(res@) == line_settings(lines_of(text@)),
{
    let list = lines(text);
    let ghost all = lines_of(text@);
    let mut res: Vec<(String, String)> = Vec::new();
    let mut i: usize = 0;
    assert(setting_views(res@) == line_settings(all.take(0)));
    while i < list.len()
        invariant
            all == views(list@),
            i <= list@.len(),
            setting_views(res@) == line_settings(all.take(i as int)),
        decreases list@.len() - i,
    {
        let ghost so_far = setting_views(res@);
        assert(all.take(i + 1).drop_last() == all.take(i as int));
        assert(all.take(i + 1).last() == list@[i as int]@);
        if let Some(entry) = read_line(list[i].as_str()) {
            res.push(entry);
            assert(setting_views(res@) == so_far.push((entry.0@, entry.1@)));
        }
        i = i + 1;
    }
    assert(all.take(i as int) == all);
    res
}

fn find_setting<'a>(settings: &'a Vec<(String, String)>, name: &str) -> (res: Option<&'a String>)
    ensures
        match res {
            Some(value) => value_of(setting_views(settings@), name@) == Some(value@),
            None => value_of(setting_views(settings@), name@) is None,
        },
{
    let ghost all = setting_views(settings@);
    let mut i: usize = 0;
    assert(all.skip(0) == all);
    while i < settings.len()
        invariant
            all == setting_views(settings@),
            i <= settings@.len(),
            value_of(all, name@) == value_of(all.skip(i as int), name@),
        decreases settings@.len() - i,
    {
        assert(all.skip(i as int)[0] == (settings@[i as int].0@, settings@[i as int].1@));
        assert(all.skip(i as int).drop_first() == all.skip(i + 1));
        if same(settings[i].0.as_str(), name) {
            return Some(&settings[i].1);
        }
        i = i + 1;
    }
    None
}

fn setting(settings: &Vec<(String, String)>, name: &str, fallback: &str) -> (res: String)
    ensures
        res@ == setting_or(setting_views(settings@), name@, fallback@),
{
    match find_setting(settings, name) {
        Some(value) => value.clone(),
        None => fallback.to_owned(),
    }
}

fn gather(env: &Vec<(String, String)>, files: &Vec<String>) -> (res: Vec<(String, String)>)
    ensures
        setting_views(res@) == all_settings(setting_views(env@), views(files@)),
{
    let ghost given = setting_views(env@);
    let ghost texts = views(files@);
    let mut res: Vec<(String, String)> = Vec::new();
    let mut i: usize = 0;
    assert(setting_views(res@) == filled(given.take(0)));
    while i < env.len()
        invariant
            given == setting_views(env@),
            i <= env@.len(),
            setting_views(res@) == filled(given.take(i as int)),
        decreases env@.len() - i,
    {
        let ghost so_far = setting_views(res@);
        assert(given.take(i + 1).drop_last() == given.take(i as int));
        assert(given.take(i + 1).last() == (env@[i as int].0@, env@[i as int].1@));
        if !env[i].1.as_str().is_empty() {
            let entry = (env[i].0.clone(), env[i].1.clone());
            res.push(entry);
            assert(setting_views(res@) == so_far.push((entry.0@, entry.1@)));
        }
        i = i + 1;
    }
    assert(given.take(i as int) == given);
    let mut k: usize = 0;
    assert(filled(given) + file_settings(texts.take(0)) == filled(given));
    while k < files.len()
        invariant
            texts == views(files@),
            k <= files@.len(),
            setting_views(res@) == filled(given) + file_settings(texts.take(k as int)),
        decreases files@.len() - k,
    {
        let ghost so_far = setting_views(res@);
        assert(texts.take(k + 1).drop_last() == texts.take(k as int));
        assert(texts.take(k + 1).last() == files@[k as int]@);
        let mut more = read_settings(files[k].as_str());
        let ghost new = setting_views(more@);
        res.append(&mut more);
        assert(setting_views(res@) == so_far + new);
        assert(filled(given) + file_settings(texts.take(k as int)) + new == filled(given) + (
        file_settings(texts.take(k as int)) + new));
        k = k + 1;
    }
    assert(texts.take(k as int) == texts);
    res
}

/// Endpoints and default model names: from the environment first, and then from the texts of
/// the settings files, the first that has a value deciding.
///
/// No setting holds a key, so that a server cannot have one.
pub fn load_config(env: &Vec<(String, String)>, files: &Vec<String>) -> (res: Config)
    ensures
        is_configured(res, setting_views(env@), views(files@)),
{
    let settings = gather(env, files);
    Config {
        jev_base: trim_slash(find_setting(&settings, JEV_BASE_NAME), DEFAULT_JEV_BASE),
        jev_model: setting(&settings, JEV_MODEL_NAME, DEFAULT_JEV_MODEL),
        draft_base: trim_slash(find_setting(&settings, DRAFT_BASE_NAME), DEFAULT_DRAFT_BASE),
        draft_model: setting(&settings, DRAFT_MODEL_NAME, DEFAULT_DRAFT_MODEL),
        vision_base: trim_slash(find_setting(&settings, VISION_BASE_NAME), DEFAULT_VISION_BASE),
        vision_model: setting(&settings, VISION_MODEL_NAME, DEFAULT_VISION_MODEL),
    }
}

/// Appending settings changes nothing for a name that has a value already.
pub proof fn first_value_stays(settings: Seq<Setting>, more: Seq<Setting>, name: Seq<char>)
    ensures
        value_of(settings + more, name) == (match value_of(settings, name) {
            Some(value) => Some(value),
            None => value_of(more, name),
        }),
    decreases settings.len(),
{
    if settings.len() == 0 {
        assert(settings + more == more);
    } else if settings[0].0 != name {
        assert((settings + more).drop_first() == settings.drop_first() + more);
        first_value_stays(settings.drop_first(), more, name);
    }
}

/// A variable of the environment that is not empty decides, whatever the files say.
pub proof fn environment_decides(
    env: Seq<Setting>,
    files: Seq<Seq<char>>,
    name: Seq<char>,
    fallback: Seq<char>,
)
    requires
        value_of(filled(env), name) is Some,
    ensures
        setting_or(all_settings(env, files), name, fallback) == setting_or(
            filled(env),
            name,
            fallback,
        ),
{
    first_value_stays(filled(env), file_settings(files), name);
}

/// A setting in an earlier file decides over those in later files.
pub proof fn earlier_file_decides(files: Seq<Seq<char>>, later: Seq<Seq<char>>, name: Seq<char>)
    requires
        value_of(file_settings(files), name) is Some,
    ensures
        value_of(file_settings(files + later), name) == value_of(file_settings(files), name),
    decreases later.len(),
{
    if later.len() == 0 {
        assert(files + later == files);
    } else {
        let all = files + later;
        assert(all.drop_last() == files + later.drop_last());
        assert(all.last() == later.last());
        earlier_file_decides(files, later.drop_last(), name);
        first_value_stays(
            file_settings(files + later.drop_last()),
            line_settings(lines_of(later.last())),
            name,
        );
    }
}

/// A base URL ends in no slash, so that a path can be put behind it.
pub proof fn bare_url_ends_in_no_slash(url: Seq<char>)
    ensures
        bare_url(url).len() > 0 ==> bare_url(url).last() != '/',
{
    back_is_bare(url, Class::Only('/'));
}

/// The argument behind the first one that is `name`.
pub open spec fn argument_after(args: Seq<Seq<char>>, name: Seq<char>) -> Option<Seq<char>>
    decreases args.len(),
{
    if args.len() < 2 {
        None
    } else if args[0] == name {
        Some(args[1])
    } else {
        argument_after(args.drop_first(), name)
    }
}

/// The argument behind the first one that is `name`.
pub fn arg_value(args: &Vec<String>, name: &str) -> (res: Option<String>)
    ensures
        match res {
            Some(value) => argument_after(views(args@), name@) == Some(value@),
            None => argument_after(views(args@), name@) is None,
        },
{
    let ghost all = views(args@);
    let mut i: usize = 0;
    assert(all.skip(0) == all);
    while i < args.len()
        invariant
            all == views(args@),
            i <= args@.len(),
            argument_after(all, name@) == argument_after(all.skip(i as int), name@),
        decreases args@.len() - i,
    {
        assert(all.skip(i as int)[0] == args@[i as int]@);
        assert(all.skip(i as int).drop_first() == all.skip(i + 1));
        if same(args[i].as_str(), name) {
            if i + 1 < args.len() {
                assert(all.skip(i as int)[1] == args@[i + 1]@);
                return Some(args[i + 1].clone());
            }
            return None;
        }
        i = i + 1;
    }
    None
}

/// A text that is given first, or else a second one.
pub open spec fn given_text(first: Option<String>, second: Option<String>) -> Option<Seq<char>> {
    match first {
        Some(text) => Some(text@),
        None => match second {
            Some(text) => Some(text@),
            None => None,
        },
    }
}

/// The port to listen on: from the command line, else from the environment. What is no port
/// number counts as none; the environment is not asked in its place.
pub fn choose_port(argument: &Option<String>, variable: &Option<String>) -> (res: u16)
    ensures
        res == port_in(given_text(*argument, *variable)),
{
    let given = match argument {
        Some(text) => Some(text),
        None => match variable {
            Some(text) => Some(text),
            None => None,
        },
    };
    match given {
        Some(text) => match parse_u16(text.as_str()) {
            Some(n) => n,
            None => DEFAULT_PORT,
        },
        None => DEFAULT_PORT,
    }
}

/// The host to listen on: from the command line, else from the environment.
pub fn choose_host(argument: &Option<String>, variable: &Option<String>) -> (res: String)
    ensures
        res@ == (match given_text(*argument, *variable) {
            Some(text) => text,
            None => DEFAULT_HOST@,
        }),
{
    match argument {
        Some(text) => text.clone(),
        None => match variable {
            Some(text) => text.clone(),
            None => DEFAULT_HOST.to_owned(),
        },
    }
}

/// The address of a port on a host.
pub open spec fn address_text(host: Seq<char>, port: u16) -> Seq<char> {
    host + ":"@ + digits_of(port as nat)
}

/// The address of a port on a host.
pub fn address(host: &str, port: u16) -> (res: String)
    ensures
        res@ == address_text(host@, port),
{
    join(join(host, ":").as_str(), decimal(port as u64).as_str())
}

/// Where a server that listens on `host` can be reached: an address that stands for all
/// interfaces is no destination.
pub open spec fn reachable_host(host: Seq<char>) -> Seq<char> {
    if host == "0.0.0.0"@ || host == "::"@ {
        "127.0.0.1"@
    } else {
        host
    }
}

/// The URL at which a server is asked whether it is up.
pub fn healthcheck_url(host: &str, port: u16) -> (res: String)
    ensures
        res@ == "http://"@ + address_text(reachable_host(host@), port) + "/healthz"@,
{
    let target = if same(host, "0.0.0.0") || same(host, "::") {
        "127.0.0.1"
    } else {
        host
    };
    join(join("http://", address(target, port).as_str()).as_str(), "/healthz")
}

/// Where the assets lie.
#[derive(Debug, PartialEq)]
pub enum AssetRoot {
    /// In this directory.
    Given(String),
    /// Next to the manifest.
    Manifest,
    /// Next to the executable.
    Executable,
}

/// Assets sit next to the manifest in development and next to the executable once shipped. A
/// directory that is given wins over both guesses, and where the executable has no known
/// directory the manifest's is taken after all.
pub fn asset_root(
    given: &Option<String>,
    manifest_has_index: bool,
    executable_known: bool,
) -> (res: AssetRoot)
    ensures
        match *given {
            Some(dir) if dir@.len() > 0 => res matches AssetRoot::Given(root) && root@ == dir@,
            _ => if manifest_has_index || !executable_known {
                res is Manifest
            } else {
                res is Executable
            },
        },
{
    if let Some(dir) = given {
        if !dir.as_str().is_empty() {
            return AssetRoot::Given(dir.clone());
        }
    }
    if manifest_has_index || !executable_known {
        AssetRoot::Manifest
    } else {
        AssetRoot::Executable
    }
}

fn one(a: &str) -> (res: Vec<String>)
    ensures
        views(res@) == seq![a@],
{
    let mut res: Vec<String> = Vec::new();
    res.push(a.to_owned());
    assert(views(res@) == seq![a@]);
    res
}

fn two(a: &str, b: &str) -> (res: Vec<String>)
    ensures
        views(res@) == seq![a@, b@],
{
    let mut res: Vec<String> = Vec::new();
    res.push(a.to_owned());
    res.push(b.to_owned());
    assert(views(res@) == seq![a@, b@]);
    res
}

/// The settings files, in the order in which they are read. Each is a directory with the names
/// to join to it: one file in `root`, and one in each of two projects next to it. A root
/// without a parent stands in for its parent.
pub fn env_candidates<'a, P>(root: &'a P, parent: Option<&'a P>) -> (res: Vec<
    (&'a P, Vec<String>),
>)
    ensures
        ({
            let beside = match parent {
                Some(directory) => directory,
                None => root,
            };
            &&& res@.len() == 3
            &&& res@[0].0 == root && views(res@[0].1@) == seq![".env"@]
            &&& res@[1].0 == beside && views(res@[1].1@) == seq!["jev-lab"@, ".env"@]
            &&& res@[2].0 == beside && views(res@[2].1@) == seq!["jev-ultrafast"@, ".env"@]
        }),
{
    let beside = match parent {
        Some(directory) => directory,
        None => root,
    };
    let mut res: Vec<(&'a P, Vec<String>)> = Vec::new();
    res.push((root, one(".env")));
    res.push((beside, two("jev-lab", ".env")));
    res.push((beside, two("jev-ultrafast", ".env")));
    res
}

/// A line sets a name to a value where it has both, with `=` between them: what stands before the
/// first `=` and what stands behind it, whole but for white space at their ends. A comment sets
/// nothing, nor does a line without `=` or without a value.
pub proof fn line_sets_name_to_value(line: Seq<char>, name: Seq<char>, value: Seq<char>)
    ensures
        trimmed(line) == name + seq!['='] + value && !name.contains('=') ==> ({
            let comment = trimmed(line)[0] == '#';
            &&& !comment && trimmed(value).len() > 0 ==> line_setting(line) == Some(
                (trimmed(name), trimmed(value)),
            )
            &&& comment || trimmed(value).len() == 0 ==> line_setting(line) is None
        }),
        !trimmed(line).contains('=') ==> line_setting(line) is None,
{
    if trimmed(line) == name + seq!['='] + value && !name.contains('=') {
        split_at_the_first_mark(name, value, '=');
    }
    if !trimmed(line).contains('=') {
        split_at_the_first_mark(trimmed(line), value, '=');
    }
}

/// The settings of a file are those of its lines, in order: each line gives its own or none.
pub proof fn settings_go_line_by_line(
    front: Seq<Seq<char>>,
    back: Seq<Seq<char>>,
    line: Seq<char>,
)
    ensures
        line_settings(front + back) == line_settings(front) + line_settings(back),
        line_setting(line) matches Some(setting) ==> line_settings(seq![line]) == seq![setting],
        line_setting(line) is None ==> line_settings(seq![line]).len() == 0,
    decreases back.len(),
{
    assert(seq![line].drop_last() == Seq::<Seq<char>>::empty());
    assert(seq![line].last() == line);
    assert(line_settings(Seq::<Seq<char>>::empty()) == Seq::<Setting>::empty());
    if back.len() == 0 {
        assert(front + back == front);
    } else {
        assert((front + back).drop_last() == front + back.drop_last());
        assert((front + back).last() == back.last());
        settings_go_line_by_line(front, back.drop_last(), line);
    }
}

/// The settings of some files are those of each, in order, read line by line.
pub proof fn settings_go_file_by_file(
    front: Seq<Seq<char>>,
    back: Seq<Seq<char>>,
    file: Seq<char>,
)
    ensures
        file_settings(front + back) == file_settings(front) + file_settings(back),
        file_settings(seq![file]) == line_settings(lines_of(file)),
    decreases back.len(),
{
    assert(seq![file].drop_last() == Seq::<Seq<char>>::empty());
    assert(seq![file].last() == file);
    assert(file_settings(Seq::<Seq<char>>::empty()) == Seq::<Setting>::empty());
    assert(Seq::<Setting>::empty() + line_settings(lines_of(file)) == line_settings(lines_of(file)));
    if back.len() == 0 {
        assert(front + back == front);
    } else {
        assert((front + back).drop_last() == front + back.drop_last());
        assert((front + back).last() == back.last());
        settings_go_file_by_file(front, back.drop_last(), file);
        assert(file_settings(front) + file_settings(back.drop_last()) + line_settings(
            lines_of(back.last()),
        ) == file_settings(front) + (file_settings(back.drop_last()) + line_settings(
            lines_of(back.last()),
        )));
    }
}

/// Of the environment every variable counts that has a value, as it is, in order; an empty one
/// counts as none.
pub proof fn empty_variables_do_not_count(
    front: Seq<Setting>,
    back: Seq<Setting>,
    name: Seq<char>,
    value: Seq<char>,
)
    ensures
        filled(front + back) == filled(front) + filled(back),
        value.len() > 0 ==> filled(seq![(name, value)]) == seq![(name, value)],
        value.len() == 0 ==> filled(seq![(name, value)]).len() == 0,
    decreases back.len(),
{
    let one = seq![(name, value)];
    assert(one.drop_last() == Seq::<Setting>::empty());
    assert(one.last() == (name, value));
    assert(filled(Seq::<Setting>::empty()) == Seq::<Setting>::empty());
    if back.len() == 0 {
        assert(front + back == front);
    } else {
        assert((front + back).drop_last() == front + back.drop_last());
        assert((front + back).last() == back.last());
        empty_variables_do_not_count(front, back.drop_last(), name, value);
    }
}

/// The value of a name is that of the first setting with exactly this name; without one there is
/// none, and the fallback is taken.
pub proof fn first_setting_decides(
    settings: Seq<Setting>,
    i: int,
    name: Seq<char>,
    fallback: Seq<char>,
)
    ensures
        0 <= i < settings.len() && settings[i].0 == name && (forall|j: int|
            0 <= j < i ==> (#[trigger] settings[j]).0 != name) ==> value_of(settings, name) == Some(
            settings[i].1,
        ) && setting_or(settings, name, fallback) == settings[i].1,
        (forall|j: int| 0 <= j < settings.len() ==> (#[trigger] settings[j]).0 != name) ==> value_of(
            settings,
            name,
        ) is None && setting_or(settings, name, fallback) == fallback,
    decreases settings.len(),
{
    if settings.len() > 0 {
        let rest = settings.drop_first();
        first_setting_decides(rest, i - 1, name, fallback);
        assert(forall|j: int| 0 <= j < rest.len() ==> rest[j] == #[trigger] settings[j + 1]);
        assert(forall|j: int| 0 <= j < rest.len() ==> #[trigger] rest[j] == settings[j + 1]);
        if i > 0 && i < settings.len() {
            assert(rest[i - 1] == settings[i]);
        }
    }
}

/// The environment goes before the files, and where it has no value the files decide.
pub proof fn environment_goes_before_files(
    env: Seq<Setting>,
    files: Seq<Seq<char>>,
    name: Seq<char>,
)
    ensures
        value_of(filled(env), name) is Some ==> value_of(all_settings(env, files), name) == value_of(
            filled(env),
            name,
        ),
        value_of(filled(env), name) is None ==> value_of(all_settings(env, files), name) == value_of(
            file_settings(files),
            name,
        ),
{
    first_value_stays(filled(env), file_settings(files), name);
}

/// A base URL loses the slashes at its end, and nothing else.
pub proof fn only_slashes_at_the_end_go(url: Seq<char>, slashes: Seq<char>)
    requires
        url.len() > 0,
        url.last() != '/',
        forall|i: int| 0 <= i < slashes.len() ==> #[trigger] slashes[i] == '/',
    ensures
        bare_url(url + slashes) == url,
{
    drop_back_stops(url, slashes, Class::Only('/'));
}

/// The settings and their defaults go by the names that they are known by.
pub proof fn settings_have_their_names_and_defaults()
    ensures
        JEV_BASE_NAME@ == "TYPESAFE_BASE_URL"@,
        JEV_MODEL_NAME@ == "TYPESAFE_MODEL"@,
        DRAFT_BASE_NAME@ == "TEXT_MODEL_BASE_URL"@,
        DRAFT_MODEL_NAME@ == "TEXT_MODEL"@,
        VISION_BASE_NAME@ == "VISION_MODEL_BASE_URL"@,
        VISION_MODEL_NAME@ == "VISION_MODEL"@,
        DEFAULT_JEV_BASE@ == "https://openrouter.ai/api"@,
        DEFAULT_JEV_MODEL@ == "jev-latest"@,
        DEFAULT_DRAFT_BASE@ == "https://openrouter.ai/api/v1"@,
        DEFAULT_DRAFT_MODEL@ == "deepseek/deepseek-chat-v3.1"@,
        DEFAULT_VISION_BASE@ == "https://openrouter.ai/api/v1"@,
        DEFAULT_VISION_MODEL@ == "qwen/qwen3.7-flash"@,
        DEFAULT_PORT == 8778,
        DEFAULT_HOST@ == "127.0.0.1"@,
{
}

/// The value of an option is the argument directly behind the first one that is its name.
pub proof fn option_has_the_next_argument(
    before: Seq<Seq<char>>,
    name: Seq<char>,
    value: Seq<char>,
    rest: Seq<Seq<char>>,
)
    requires
        !before.contains(name),
    ensures
        argument_after(before + seq![name, value] + rest, name) == Some(value),
        argument_after(before + seq![name], name) is None,
        argument_after(before, name) is None,
    decreases before.len(),
{
    let whole = before + seq![name, value] + rest;
    if before.len() == 0 {
        assert(whole[0] == name && whole[1] == value);
    } else {
        let later = before.drop_first();
        assert(before.contains(before[0]));
        assert(!later.contains(name)) by {
            if later.contains(name) {
                let i = choose|i: int| 0 <= i < later.len() && later[i] == name;
                assert(before[i + 1] == name);
            }
        }
        option_has_the_next_argument(later, name, value, rest);
        assert(whole.drop_first() == later + seq![name, value] + rest);
        assert((before + seq![name]).drop_first() == later + seq![name]);
        assert(whole[0] == before[0]);
    }
}

/// The command line goes before the environment.
pub proof fn argument_goes_before_variable(argument: String, variable: Option<String>)
    ensures
        given_text(Some(argument), variable) == Some(argument@),
        given_text(None, Some(argument)) == Some(argument@),
        given_text(None, None) is None,
{
}

/// An address is the host, a colon and the port. A server on all interfaces is asked over
/// loopback, and every other at its own host.
pub proof fn server_is_asked_where_it_listens(host: Seq<char>, port: u16)
    ensures
        address_text(host, port) == host + ":"@ + digits_of(port as nat),
        reachable_host("0.0.0.0"@) == "127.0.0.1"@,
        reachable_host("::"@) == "127.0.0.1"@,
        host != "0.0.0.0"@ && host != "::"@ ==> reachable_host(host) == host,
{
}

/// A list of settings has the names and values of its entries, one for one.
pub proof fn settings_go_one_for_one(list: Seq<(String, String)>, i: int)
    requires
        0 <= i < list.len(),
    ensures
        setting_views(list).len() == list.len(),
        setting_views(list)[i] == (list[i].0@, list[i].1@),
{
}

/// Whether a configuration is what the settings say, with the defaults where they say nothing.
pub open spec fn is_configured(config: Config, env: Seq<Setting>, files: Seq<Seq<char>>) -> bool {
    let settings = all_settings(env, files);
    &&& config.jev_base@ == bare_url(setting_or(settings, JEV_BASE_NAME@, DEFAULT_JEV_BASE@))
    &&& config.jev_model@ == setting_or(settings, JEV_MODEL_NAME@, DEFAULT_JEV_MODEL@)
    &&& config.draft_base@ == bare_url(setting_or(settings, DRAFT_BASE_NAME@, DEFAULT_DRAFT_BASE@))
    &&& config.draft_model@ == setting_or(settings, DRAFT_MODEL_NAME@, DEFAULT_DRAFT_MODEL@)
    &&& config.vision_base@ == bare_url(
        setting_or(settings, VISION_BASE_NAME@, DEFAULT_VISION_BASE@),
    )
    &&& config.vision_model@ == setting_or(settings, VISION_MODEL_NAME@, DEFAULT_VISION_MODEL@)
}

/// Each setting decides its own part of the configuration, and no other: a base URL but for the
/// slashes at its end, and a model as it is.
pub proof fn each_setting_decides_its_part(config: Config, env: Seq<Setting>, files: Seq<Seq<char>>)
    requires
        is_configured(config, env, files),
    ensures
        ({
            let settings = all_settings(env, files);
            &&& value_of(settings, "TYPESAFE_BASE_URL"@) matches Some(url) ==> config.jev_base@
                == bare_url(url)
            &&& value_of(settings, "TYPESAFE_MODEL"@) matches Some(model) ==> config.jev_model@ == model
            &&& value_of(settings, "TEXT_MODEL_BASE_URL"@) matches Some(url) ==> config.draft_base@
                == bare_url(url)
            &&& value_of(settings, "TEXT_MODEL"@) matches Some(model) ==> config.draft_model@ == model
            &&& value_of(settings, "VISION_MODEL_BASE_URL"@) matches Some(url) ==> config.vision_base@
                == bare_url(url)
            &&& value_of(settings, "VISION_MODEL"@) matches Some(model) ==> config.vision_model@ == model
            &&& value_of(settings, "TYPESAFE_BASE_URL"@) is None ==> config.jev_base@
                == "https://openrouter.ai/api"@
            &&& value_of(settings, "TYPESAFE_MODEL"@) is None ==> config.jev_model@ == "jev-latest"@
            &&& value_of(settings, "TEXT_MODEL_BASE_URL"@) is None ==> config.draft_base@
                == "https://openrouter.ai/api/v1"@
            &&& value_of(settings, "TEXT_MODEL"@) is None ==> config.draft_model@
                == "deepseek/deepseek-chat-v3.1"@
            &&& value_of(settings, "VISION_MODEL_BASE_URL"@) is None ==> config.vision_base@
                == "https://openrouter.ai/api/v1"@
            &&& value_of(settings, "VISION_MODEL"@) is None ==> config.vision_model@
                == "qwen/qwen3.7-flash"@
        }),
{
    let api = "https://openrouter.ai/api"@;
    let v1 = "https://openrouter.ai/api/v1"@;
    let none = Seq::<char>::empty();
    reveal_strlit("https://openrouter.ai/api");
    reveal_strlit("https://openrouter.ai/api/v1");
    assert(api.len() == 25 && api[24] == 'i');
    assert(v1.len() == 28 && v1[27] == '1');
    only_slashes_at_the_end_go(api, none);
    only_slashes_at_the_end_go(v1, none);
    assert(api + none == api && v1 + none == v1);
}

/// The port that a text asks for.
pub open spec fn port_in(given: Option<Seq<char>>) -> u16 {
    match given {
        Some(text) => match spelled_number(text, u16::MAX as nat) {
            Some(n) => n as u16,
            None => DEFAULT_PORT,
        },
        None => DEFAULT_PORT,
    }
}

/// Every port number is understood, and what is none gives the default.
pub proof fn every_port_is_understood(port: u16, text: Seq<char>)
    ensures
        port_in(Some(digits_of(port as nat))) == port,
        spelled_number(text, 65535) is None ==> port_in(Some(text)) == 8778,
        port_in(None) == 8778,
{
    written_number_reads_back(port as nat, u16::MAX as nat);
}

} // verus!
