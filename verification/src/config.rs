//! The configuration model: named profiles, the active-profile pointer,
//! the renderer color, and the one-time template substitution applied to
//! every profile's system-prompt lines.

use vstd::prelude::*;
use vstd::string::StringExecFns;
use crate::text::{decimal, lower, render_line, replace_all, str_eq, to_decimal, to_lower, views};

verus! {

/// A renderer foreground/background value. Textual parsing is
/// case-insensitive and falls back to white on unrecognized input.
#[derive(Debug, Clone, Copy, PartialEq, Eq, Structural)]
pub enum Color {
    Red,
    Blue,
    Cyan,
    Grey,
    Black,
    Green,
    Reset,
    White,
    Yellow,
}

/// The color a textual name denotes, case-insensitively; an unrecognized
/// name denotes white.
pub open spec fn spec_color_of(t: Seq<char>) -> Color {
    let l = lower(t);
    if l == "red"@ {
        Color::Red
    } else if l == "blue"@ {
        Color::Blue
    } else if l == "cyan"@ {
        Color::Cyan
    } else if l == "grey"@ {
        Color::Grey
    } else if l == "black"@ {
        Color::Black
    } else if l == "green"@ {
        Color::Green
    } else if l == "reset"@ {
        Color::Reset
    } else if l == "white"@ {
        Color::White
    } else if l == "yellow"@ {
        Color::Yellow
    } else {
        Color::White
    }
}

impl Color {
    /// Parses a color name, ignoring case; anything unrecognized falls
    /// back to white.
    pub fn parse(s: &str) -> (c: Color)
        ensures
            c == spec_color_of(s@),
    {
        let l = to_lower(s);
        if str_eq(l.as_str(), "red") {
            Color::Red
        } else if str_eq(l.as_str(), "blue") {
            Color::Blue
        } else if str_eq(l.as_str(), "cyan") {
            Color::Cyan
        } else if str_eq(l.as_str(), "grey") {
            Color::Grey
        } else if str_eq(l.as_str(), "black") {
            Color::Black
        } else if str_eq(l.as_str(), "green") {
            Color::Green
        } else if str_eq(l.as_str(), "reset") {
            Color::Reset
        } else if str_eq(l.as_str(), "white") {
            Color::White
        } else if str_eq(l.as_str(), "yellow") {
            Color::Yellow
        } else {
            Color::White
        }
    }
}

/// One named configuration bundle: the model to call, the requested reply
/// length, and the system-prompt template lines.
pub struct Profile {
    pub model_name: String,
    pub chars: usize,
    pub system_prompt: Vec<String>,
}

/// The mathematical shape of a `Profile`.
pub struct ProfileModel {
    pub model_name: Seq<char>,
    pub chars: nat,
    pub system_prompt: Seq<Seq<char>>,
}

impl View for Profile {
    type V = ProfileModel;

    open spec fn view(&self) -> ProfileModel {
        ProfileModel {
            model_name: self.model_name@,
            chars: self.chars as nat,
            system_prompt: views(self.system_prompt@),
        }
    }
}

/// A profile after the one-time template substitution: every occurrence
/// of the placeholder in its prompt lines replaced by the decimal
/// rendering of its target length.
pub open spec fn spec_render_profile(p: ProfileModel) -> ProfileModel {
    ProfileModel {
        model_name: p.model_name,
        chars: p.chars,
        system_prompt: p.system_prompt.map_values(|l: Seq<char>| replace_all(l, decimal(p.chars))),
    }
}

/// Template rendering is idempotent: one pass replaces every placeholder
/// with digits, and digits can never spell the placeholder again, so a
/// second pass finds nothing to do.
pub proof fn lemma_profile_render_idempotent(p: ProfileModel)
    ensures
        spec_render_profile(spec_render_profile(p)) == spec_render_profile(p),
{
    let d = decimal(p.chars);
    crate::text::lemma_decimal_digits(p.chars);
    let once = spec_render_profile(p);
    let twice = spec_render_profile(once);
    assert forall|i: int| 0 <= i < twice.system_prompt.len() implies #[trigger] twice.system_prompt[i]
        == once.system_prompt[i] by {
        crate::text::lemma_replace_all_idempotent(p.system_prompt[i], d);
    }
    assert(twice.system_prompt =~= once.system_prompt);
}

impl Profile {
    /// A copy of this profile with the template substitution applied.
    pub fn rendered(&self) -> (r: Profile)
        ensures
            r@ == spec_render_profile(self@),
    {
        let digits = to_decimal(self.chars);
        let mut lines: Vec<String> = Vec::new();
        let mut i: usize = 0;
        while i < self.system_prompt.len()
            invariant
                i <= self.system_prompt@.len(),
                digits@ == decimal(self.chars as nat),
                views(lines@) == views(self.system_prompt@).subrange(0, i as int).map_values(
                    |l: Seq<char>| replace_all(l, decimal(self.chars as nat)),
                ),
            decreases self.system_prompt@.len() - i,
        {
            let line = render_line(self.system_prompt[i].as_str(), digits.as_str());
            let ghost pre = lines@;
            lines.push(line);
            proof {
                assert(views(lines@) =~= views(pre).push(lines@.last()@));
                assert(views(lines@) =~= views(self.system_prompt@).subrange(
                    0,
                    i + 1,
                ).map_values(|l: Seq<char>| replace_all(l, decimal(self.chars as nat))));
            }
            i = i + 1;
        }
        proof {
            assert(views(self.system_prompt@).subrange(0, self.system_prompt@.len() as int)
                =~= views(self.system_prompt@));
        }
        Profile { model_name: self.model_name.clone(), chars: self.chars, system_prompt: lines }
    }
}

/// The named profiles, in their stored order. Lookup takes the first
/// entry with the given name.
pub struct ProfileMap {
    entries: Vec<(String, Profile)>,
}

/// First-match lookup in an association sequence, from position `i` on.
pub open spec fn lookup_from(
    s: Seq<(Seq<char>, ProfileModel)>,
    i: int,
    name: Seq<char>,
) -> Option<ProfileModel>
    decreases s.len() - i,
{
    if i < 0 || i >= s.len() {
        None
    } else if s[i].0 == name {
        Some(s[i].1)
    } else {
        lookup_from(s, i + 1, name)
    }
}

/// First-match lookup in an association sequence.
pub open spec fn lookup(s: Seq<(Seq<char>, ProfileModel)>, name: Seq<char>) -> Option<
    ProfileModel,
> {
    lookup_from(s, 0, name)
}

/// The names of an association sequence, in order.
pub open spec fn entry_names(s: Seq<(Seq<char>, ProfileModel)>) -> Seq<Seq<char>> {
    s.map_values(|e: (Seq<char>, ProfileModel)| e.0)
}

impl View for ProfileMap {
    type V = Seq<(Seq<char>, ProfileModel)>;

    closed spec fn view(&self) -> Seq<(Seq<char>, ProfileModel)> {
        self.entries@.map_values(|e: (String, Profile)| (e.0@, e.1@))
    }
}

impl ProfileMap {
    /// An empty profile table.
    pub fn new() -> (r: ProfileMap)
        ensures
            r@ == Seq::<(Seq<char>, ProfileModel)>::empty(),
    {
        let r = ProfileMap { entries: Vec::new() };
        proof {
            assert(r@ =~= Seq::<(Seq<char>, ProfileModel)>::empty());
        }
        r
    }

    /// Appends one named profile.
    pub fn push(&mut self, name: String, profile: Profile)
        ensures
            final(self)@ == old(self)@.push((name@, profile@)),
    {
        let ghost pre = self@;
        self.entries.push((name, profile));
        proof {
            assert(self@ =~= pre.push((self.entries@.last().0@, self.entries@.last().1@)));
        }
    }

    /// How many profiles are stored.
    pub fn len(&self) -> (n: usize)
        ensures
            n == self@.len(),
    {
        self.entries.len()
    }

    /// Looks a profile up by name: the first entry carrying `name`,
    /// if any entry does.
    pub fn get(&self, name: &str) -> (r: Option<&Profile>)
        ensures
            match r {
                Some(p) => lookup(self@, name@) == Some(p@),
                None => lookup(self@, name@) is None,
            },
    {
        let n = self.entries.len();
        let mut i: usize = 0;
        while i < n
            invariant
                n == self.entries@.len(),
                i <= n,
                lookup(self@, name@) == lookup_from(self@, i as int, name@),
            decreases n - i,
        {
            if str_eq(self.entries[i].0.as_str(), name) {
                return Some(&self.entries[i].1);
            }
            i = i + 1;
        }
        None
    }

    /// The stored profile names, in order.
    pub fn names(&self) -> (r: Vec<String>)
        ensures
            views(r@) == entry_names(self@),
    {
        let n = self.entries.len();
        let mut r: Vec<String> = Vec::new();
        let mut i: usize = 0;
        while i < n
            invariant
                n == self.entries@.len(),
                i <= n,
                views(r@) == entry_names(self@).subrange(0, i as int),
            decreases n - i,
        {
            let ghost pre = r@;
            r.push(self.entries[i].0.clone());
            proof {
                assert(views(r@) =~= views(pre).push(r@.last()@));
                assert(views(r@) =~= entry_names(self@).subrange(0, i + 1));
            }
            i = i + 1;
        }
        proof {
            assert(entry_names(self@).subrange(0, n as int) =~= entry_names(self@));
        }
        r
    }

    /// A copy of this table with every profile's template substitution
    /// applied.
    pub fn rendered(&self) -> (r: ProfileMap)
        ensures
            r@ == self@.map_values(
                |e: (Seq<char>, ProfileModel)| (e.0, spec_render_profile(e.1)),
            ),
    {
        let n = self.entries.len();
        let mut out = ProfileMap::new();
        let mut i: usize = 0;
        while i < n
            invariant
                n == self.entries@.len(),
                i <= n,
                out@ == self@.subrange(0, i as int).map_values(
                    |e: (Seq<char>, ProfileModel)| (e.0, spec_render_profile(e.1)),
                ),
            decreases n - i,
        {
            let name = self.entries[i].0.clone();
            let rendered = self.entries[i].1.rendered();
            out.push(name, rendered);
            proof {
                assert(out@ =~= self@.subrange(0, i + 1).map_values(
                    |e: (Seq<char>, ProfileModel)| (e.0, spec_render_profile(e.1)),
                ));
            }
            i = i + 1;
        }
        proof {
            assert(self@.subrange(0, n as int) =~= self@);
        }
        out
    }
}

/// The whole configuration: the credential, the active-profile pointer,
/// the named profiles, and the renderer color.
pub struct Config {
    pub api_key: String,
    pub active_profile: String,
    pub profiles: ProfileMap,
    pub color: Color,
}

/// The mathematical shape of a `Config`.
pub struct ConfigModel {
    pub api_key: Seq<char>,
    pub active_profile: Seq<char>,
    pub profiles: Seq<(Seq<char>, ProfileModel)>,
    pub color: Color,
}

impl View for Config {
    type V = ConfigModel;

    open spec fn view(&self) -> ConfigModel {
        ConfigModel {
            api_key: self.api_key@,
            active_profile: self.active_profile@,
            profiles: self.profiles@,
            color: self.color,
        }
    }
}

/// A configuration after the one-time template substitution, which touches
/// the profiles' prompt lines and nothing else.
pub open spec fn spec_render_config(c: ConfigModel) -> ConfigModel {
    ConfigModel {
        api_key: c.api_key,
        active_profile: c.active_profile,
        profiles: c.profiles.map_values(
            |e: (Seq<char>, ProfileModel)| (e.0, spec_render_profile(e.1)),
        ),
        color: c.color,
    }
}

impl Config {
    /// Applies the template substitution to every profile, once, right
    /// after the configuration is materialized.
    pub fn render(&mut self)
        ensures
            final(self)@ == spec_render_config(old(self)@),
    {
        let rendered = self.profiles.rendered();
        self.profiles = rendered;
    }
}

/// The default profile a fresh configuration carries.
pub open spec fn spec_default_profile() -> ProfileModel {
    ProfileModel {
        model_name: "gemini-2.0-flash"@,
        chars: 4000,
        system_prompt: seq!["Please reply in about {chars} chars."@],
    }
}

/// The default configuration written out when none exists yet: one
/// profile named `default`, active, with a placeholder credential.
pub open spec fn spec_default_config() -> ConfigModel {
    ConfigModel {
        api_key: "YOUR_API_KEY"@,
        active_profile: "default"@,
        profiles: seq![("default"@, spec_default_profile())],
        color: Color::Blue,
    }
}

impl Default for Profile {
    /// The fixed default profile.
    fn default() -> (p: Profile)
        ensures
            p@ == spec_default_profile(),
    {
        let mut system_prompt: Vec<String> = Vec::new();
        system_prompt.push(String::from_str("Please reply in about {chars} chars."));
        let p = Profile {
            model_name: String::from_str("gemini-2.0-flash"),
            chars: 4000,
            system_prompt,
        };
        proof {
            assert(p@.system_prompt =~= spec_default_profile().system_prompt);
        }
        p
    }
}

impl Default for Config {
    /// The fixed default configuration.
    fn default() -> (c: Config)
        ensures
            c@ == spec_default_config(),
    {
        let mut profiles = ProfileMap::new();
        profiles.push(String::from_str("default"), Profile::default());
        let c = Config {
            api_key: String::from_str("YOUR_API_KEY"),
            active_profile: String::from_str("default"),
            profiles,
            color: Color::Blue,
        };
        proof {
            assert(c@.profiles =~= spec_default_config().profiles);
        }
        c
    }
}

} // verus!
