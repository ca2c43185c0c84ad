//! The metadata file of an add-on, and its parser.
//!
//! The file is read line by line. A line that begins with `##` declares a
//! property as `key: value`; a line that begins with one `#` is a comment;
//! an empty line says nothing; any other line names a file of the add-on.

use crate::dict::Dict;
use crate::game_version::{decode, GameVersion};
use crate::markup::{sequence_chars, sequence_text, strip, strip_chars};
use crate::number::{i32_of, parse_i32, parse_usize, usize_of};
use crate::text::{
    chars_of, copy_of, extend_with, find_char, lines, position, spells, split, string_from,
    string_of, trim, trim_bounds, without_cr,
};
use vstd::prelude::*;

verus! {

/// Whether an add-on is switched on when it is first installed.
#[derive(Clone, Copy, Debug, PartialEq, Eq)]
pub enum State {
    Enabled,
    Disabled,
}

impl Default for State {
    fn default() -> (r: State)
        ensures
            r == State::Disabled,
    {
        State::Disabled
    }
}

/// The state that a `DefaultState` value names: `enabled` switches the
/// add-on on, anything else leaves it off.
pub open spec fn state_of(value: Seq<char>) -> State {
    if value == "enabled"@ {
        State::Enabled
    } else {
        State::Disabled
    }
}

impl State {
    /// Reads a `DefaultState` value. Every text is read as a state, so the
    /// result is never an error.
    pub fn from_str(s: &str) -> (r: Result<State, ()>)
        ensures
            r == Ok::<State, ()>(state_of(s@)),
    {
        let v = chars_of(s);
        assert(v@.subrange(0, v@.len() as int) == v@);
        if spells(&v, 0, v.len(), "enabled") {
            Ok(State::Enabled)
        } else {
            Ok(State::Disabled)
        }
    }
}

/// Why a metadata file could not be read.
#[derive(Clone, Debug, PartialEq, Eq)]
pub enum ParseError {
    /// The value of `X-Curse-Project-ID`, which is held here, is no unsigned
    /// integer.
    CurseId(String),
}

/// A `ParseError` with its text as a sequence of characters.
pub enum ParseErrorView {
    CurseId(Seq<char>),
}

impl View for ParseError {
    type V = ParseErrorView;

    open spec fn view(&self) -> ParseErrorView {
        match self {
            ParseError::CurseId(value) => ParseErrorView::CurseId(value@),
        }
    }
}

impl ParseError {
    /// The error in words.
    pub fn message(&self) -> (r: String)
        ensures
            match self@ {
                ParseErrorView::CurseId(value) => r@
                    == "X-Curse-Project-ID is no unsigned integer: "@ + value,
            },
    {
        match self {
            ParseError::CurseId(value) => {
                let mut out: Vec<char> = Vec::new();
                extend_with(&mut out, "X-Curse-Project-ID is no unsigned integer: ");
                extend_with(&mut out, value.as_str());
                string_from(&out)
            },
        }
    }
}

/// The metadata of an add-on.
#[derive(Clone, Debug, PartialEq)]
pub struct Toc {
    /// `Interface`: the client build the add-on was made for.
    pub interface: GameVersion,
    /// `Title`, without colour markup.
    pub title: Option<String>,
    /// `Notes`, without colour markup.
    pub notes: Option<String>,
    /// `IconTexture`
    pub icon_texture: Option<String>,
    /// `IconAtlas`
    pub icon_atlas: Option<String>,
    /// `AddonCompartmentFunc`
    pub addon_compartment_func: Option<String>,
    /// `AddonCompartmentFuncOnEnter`
    pub addon_compartment_func_on_enter: Option<String>,
    /// `AddonCompartmentFuncOnLeave`
    pub addon_compartment_func_on_leave: Option<String>,
    /// `LoadOnDemand`
    pub load_on_demand: Option<i32>,
    /// `Dependencies` or `RequiredDeps`
    pub dependencies: Vec<String>,
    /// `OptionalDependencies` or `OptionalDeps`
    pub optional_dependencies: Vec<String>,
    /// `LoadWith`
    pub load_with: Option<String>,
    /// `LoadManagers`
    pub load_managers: Option<String>,
    /// `DefaultState`
    pub default_state: Option<State>,
    /// `SavedVariables`
    pub saved_variables: Option<String>,
    /// `SavedVariablesPerCharacter`
    pub saved_variables_per_character: Option<String>,
    /// `Author`
    pub author: Option<String>,
    /// `Version`
    pub version: Option<String>,
    /// The files of the add-on, in the order of their lines.
    pub files: Vec<String>,
    /// `X-Wago-ID`
    pub wago_id: Option<String>,
    /// `X-WoWI-ID`
    pub wowi_id: Option<String>,
    /// `X-Tukui-ProjectID`
    pub tukui_id: Option<String>,
    /// `X-Curse-Project-ID`
    pub curse_id: Option<usize>,
    /// The comments, in the order of their lines.
    pub comments: Vec<String>,
    /// Every property under a key that is none of the above.
    pub unknown_properties: Dict<String>,
}

/// A `Toc` with every text as a sequence of characters.
pub struct TocView {
    pub interface: Seq<char>,
    pub title: Option<Seq<char>>,
    pub notes: Option<Seq<char>>,
    pub icon_texture: Option<Seq<char>>,
    pub icon_atlas: Option<Seq<char>>,
    pub addon_compartment_func: Option<Seq<char>>,
    pub addon_compartment_func_on_enter: Option<Seq<char>>,
    pub addon_compartment_func_on_leave: Option<Seq<char>>,
    pub load_on_demand: Option<i32>,
    pub dependencies: Seq<Seq<char>>,
    pub optional_dependencies: Seq<Seq<char>>,
    pub load_with: Option<Seq<char>>,
    pub load_managers: Option<Seq<char>>,
    pub default_state: Option<State>,
    pub saved_variables: Option<Seq<char>>,
    pub saved_variables_per_character: Option<Seq<char>>,
    pub author: Option<Seq<char>>,
    pub version: Option<Seq<char>>,
    pub files: Seq<Seq<char>>,
    pub wago_id: Option<Seq<char>>,
    pub wowi_id: Option<Seq<char>>,
    pub tukui_id: Option<Seq<char>>,
    pub curse_id: Option<usize>,
    pub comments: Seq<Seq<char>>,
    pub unknown_properties: Map<Seq<char>, Seq<char>>,
}

impl TocView {
    /// The metadata that says nothing.
    pub open spec fn empty() -> TocView {
        TocView {
            interface: Seq::empty(),
            title: None,
            notes: None,
            icon_texture: None,
            icon_atlas: None,
            addon_compartment_func: None,
            addon_compartment_func_on_enter: None,
            addon_compartment_func_on_leave: None,
            load_on_demand: None,
            dependencies: Seq::empty(),
            optional_dependencies: Seq::empty(),
            load_with: None,
            load_managers: None,
            default_state: None,
            saved_variables: None,
            saved_variables_per_character: None,
            author: None,
            version: None,
            files: Seq::empty(),
            wago_id: None,
            wowi_id: None,
            tukui_id: None,
            curse_id: None,
            comments: Seq::empty(),
            unknown_properties: Map::empty(),
        }
    }
}

impl View for Toc {
    type V = TocView;

    open spec fn view(&self) -> TocView {
        TocView {
            interface: self.interface@,
            title: self.title.deep_view(),
            notes: self.notes.deep_view(),
            icon_texture: self.icon_texture.deep_view(),
            icon_atlas: self.icon_atlas.deep_view(),
            addon_compartment_func: self.addon_compartment_func.deep_view(),
            addon_compartment_func_on_enter: self.addon_compartment_func_on_enter.deep_view(),
            addon_compartment_func_on_leave: self.addon_compartment_func_on_leave.deep_view(),
            load_on_demand: self.load_on_demand,
            dependencies: self.dependencies.deep_view(),
            optional_dependencies: self.optional_dependencies.deep_view(),
            load_with: self.load_with.deep_view(),
            load_managers: self.load_managers.deep_view(),
            default_state: self.default_state,
            saved_variables: self.saved_variables.deep_view(),
            saved_variables_per_character: self.saved_variables_per_character.deep_view(),
            author: self.author.deep_view(),
            version: self.version.deep_view(),
            files: self.files.deep_view(),
            wago_id: self.wago_id.deep_view(),
            wowi_id: self.wowi_id.deep_view(),
            tukui_id: self.tukui_id.deep_view(),
            curse_id: self.curse_id,
            comments: self.comments.deep_view(),
            unknown_properties: self.unknown_properties@.map_values(|value: String| value@),
        }
    }
}

// ---------------------------------------------------------------------------
// What a metadata text means
// ---------------------------------------------------------------------------

/// `s` without the `#` characters that begin it.
pub open spec fn without_hashes(s: Seq<char>) -> Seq<char>
    decreases s.len(),
{
    if s.len() > 0 && s[0] == '#' {
        without_hashes(s.drop_first())
    } else {
        s
    }
}

/// The list that a dependency value names: its pieces between commas, each
/// without the white space around it. An empty value names nothing.
pub open spec fn dependencies_of(value: Seq<char>) -> Seq<Seq<char>> {
    if value.len() == 0 {
        Seq::empty()
    } else {
        split(value, ',').map_values(|piece: Seq<char>| trim(piece))
    }
}

/// The key and the value that a line declares: what stands before its first
/// colon, without the `#` characters that begin it and the white space
/// around it, and what stands after, without the white space around it. A
/// line without colon declares nothing.
pub open spec fn property_of(content: Seq<char>) -> Option<(Seq<char>, Seq<char>)> {
    let colon = find_char(content, ':');
    if 0 <= colon < content.len() {
        Some((trim(without_hashes(content.take(colon))), trim(content.skip(colon + 1))))
    } else {
        None
    }
}

/// The metadata `toc` after the property `key` was given `value`. The keys
/// are matched exactly; a key that is not known goes to the unknown
/// properties. The only value that is refused is one of
/// `X-Curse-Project-ID` that is no unsigned integer.
pub open spec fn with_property(toc: TocView, key: Seq<char>, value: Seq<char>) -> Result<
    TocView,
    ParseErrorView,
> {
    if key == "Interface"@ {
        Ok(TocView { interface: decode(value), ..toc })
    } else if key == "Title"@ {
        Ok(TocView { title: Some(strip(value)), ..toc })
    } else if key == "Notes"@ {
        Ok(TocView { notes: Some(strip(value)), ..toc })
    } else if key == "IconTexture"@ {
        Ok(TocView { icon_texture: Some(value), ..toc })
    } else if key == "IconAtlas"@ {
        Ok(TocView { icon_atlas: Some(value), ..toc })
    } else if key == "AddonCompartmentFunc"@ {
        Ok(TocView { addon_compartment_func: Some(value), ..toc })
    } else if key == "AddonCompartmentFuncOnEnter"@ {
        Ok(TocView { addon_compartment_func_on_enter: Some(value), ..toc })
    } else if key == "AddonCompartmentFuncOnLeave"@ {
        Ok(TocView { addon_compartment_func_on_leave: Some(value), ..toc })
    } else if key == "LoadOnDemand"@ {
        Ok(
            TocView {
                load_on_demand: Some(
                    match i32_of(value) {
                        Some(n) => n,
                        None => 0i32,
                    },
                ),
                ..toc
            },
        )
    } else if key == "Dependencies"@ || key == "RequiredDeps"@ {
        Ok(TocView { dependencies: dependencies_of(value), ..toc })
    } else if key == "OptionalDependencies"@ || key == "OptionalDeps"@ {
        Ok(TocView { optional_dependencies: dependencies_of(value), ..toc })
    } else if key == "LoadWith"@ {
        Ok(TocView { load_with: Some(value), ..toc })
    } else if key == "LoadManagers"@ {
        Ok(TocView { load_managers: Some(value), ..toc })
    } else if key == "DefaultState"@ {
        Ok(TocView { default_state: Some(state_of(value)), ..toc })
    } else if key == "SavedVariables"@ {
        Ok(TocView { saved_variables: Some(value), ..toc })
    } else if key == "SavedVariablesPerCharacter"@ {
        Ok(TocView { saved_variables_per_character: Some(value), ..toc })
    } else if key == "Author"@ {
        Ok(TocView { author: Some(value), ..toc })
    } else if key == "Version"@ {
        Ok(TocView { version: Some(value), ..toc })
    } else if key == "X-Wago-ID"@ {
        Ok(TocView { wago_id: Some(value), ..toc })
    } else if key == "X-WoWI-ID"@ {
        Ok(TocView { wowi_id: Some(value), ..toc })
    } else if key == "X-Tukui-ProjectID"@ {
        Ok(TocView { tukui_id: Some(value), ..toc })
    } else if key == "X-Curse-Project-ID"@ {
        match usize_of(value) {
            Some(id) => Ok(TocView { curse_id: Some(id), ..toc }),
            None => Err(ParseErrorView::CurseId(value)),
        }
    } else {
        Ok(TocView { unknown_properties: toc.unknown_properties.insert(key, value), ..toc })
    }
}

/// The metadata `toc` after a line of properties.
pub open spec fn with_property_line(toc: TocView, content: Seq<char>) -> Result<
    TocView,
    ParseErrorView,
> {
    match property_of(content) {
        Some((key, value)) => with_property(toc, key, value),
        None => Ok(toc),
    }
}

/// The metadata `toc` after a line of comment: what follows the first `#`
/// of the line, without the white space around it, joins the comments. A
/// line without `#` changes nothing.
pub open spec fn with_comment_line(toc: TocView, content: Seq<char>) -> TocView {
    let hash = find_char(content, '#');
    if 0 <= hash < content.len() {
        TocView { comments: toc.comments.push(trim(content.skip(hash + 1))), ..toc }
    } else {
        toc
    }
}

/// The metadata `toc` after one line of a metadata file.
pub open spec fn with_line(toc: TocView, line: Seq<char>) -> Result<TocView, ParseErrorView> {
    if line.len() > 0 && line[0] == '#' {
        if line.len() > 1 && line[1] == '#' {
            with_property_line(toc, line)
        } else {
            Ok(with_comment_line(toc, line))
        }
    } else if line.len() == 0 {
        Ok(toc)
    } else {
        Ok(TocView { files: toc.files.push(line), ..toc })
    }
}

/// The metadata `toc` after the lines `rest`, read in order up to the first
/// that is refused.
pub open spec fn with_lines(toc: TocView, rest: Seq<Seq<char>>) -> Result<TocView, ParseErrorView>
    decreases rest.len(),
{
    if rest.len() == 0 {
        Ok(toc)
    } else {
        match with_line(toc, rest[0]) {
            Ok(next) => with_lines(next, rest.drop_first()),
            Err(e) => Err(e),
        }
    }
}

/// What a metadata text says.
pub open spec fn parse(text: Seq<char>) -> Result<TocView, ParseErrorView> {
    with_lines(TocView::empty(), lines(text))
}

/// What reading a text gave, with every text as a sequence of characters.
pub open spec fn reading(r: Result<Toc, ParseError>) -> Result<TocView, ParseErrorView> {
    match r {
        Ok(toc) => Ok(toc@),
        Err(e) => Err(e@),
    }
}

/// Reading is a function of the text: whatever two readings of one text
/// gave, they gave the same.
pub proof fn lemma_readings_agree(
    text: Seq<char>,
    first: Result<Toc, ParseError>,
    second: Result<Toc, ParseError>,
)
    requires
        reading(first) == parse(text),
        reading(second) == parse(text),
    ensures
        reading(first) == reading(second),
{
}

/// A property is refused only under the key `X-Curse-Project-ID`, and there
/// exactly when its value is no unsigned integer in the range of `usize`.
pub proof fn lemma_only_curse_id_is_refused(toc: TocView, key: Seq<char>, value: Seq<char>)
    ensures
        with_property(toc, key, value) is Err <==> key == "X-Curse-Project-ID"@ && usize_of(value)
            is None,
        with_property(toc, key, value) is Err ==> with_property(toc, key, value) == Err::<
            TocView,
            ParseErrorView,
        >(ParseErrorView::CurseId(value)),
{
    reveal_strlit("Interface");
    reveal_strlit("Title");
    reveal_strlit("Notes");
    reveal_strlit("IconTexture");
    reveal_strlit("IconAtlas");
    reveal_strlit("AddonCompartmentFunc");
    reveal_strlit("AddonCompartmentFuncOnEnter");
    reveal_strlit("AddonCompartmentFuncOnLeave");
    reveal_strlit("LoadOnDemand");
    reveal_strlit("Dependencies");
    reveal_strlit("RequiredDeps");
    reveal_strlit("OptionalDependencies");
    reveal_strlit("OptionalDeps");
    reveal_strlit("LoadWith");
    reveal_strlit("LoadManagers");
    reveal_strlit("DefaultState");
    reveal_strlit("SavedVariables");
    reveal_strlit("SavedVariablesPerCharacter");
    reveal_strlit("Author");
    reveal_strlit("Version");
    reveal_strlit("X-Wago-ID");
    reveal_strlit("X-WoWI-ID");
    reveal_strlit("X-Tukui-ProjectID");
    reveal_strlit("X-Curse-Project-ID");
    if key == "X-Curse-Project-ID"@ {
        assert(key.len() == 18);
    }
}

/// A `LoadOnDemand` property is never refused: a value that is no integer
/// in the range of `i32` gives 0.
pub proof fn lemma_load_on_demand_is_accepted(toc: TocView, value: Seq<char>)
    ensures
        with_property(toc, "LoadOnDemand"@, value) == Ok::<TocView, ParseErrorView>(
            TocView {
                load_on_demand: Some(
                    match i32_of(value) {
                        Some(n) => n,
                        None => 0i32,
                    },
                ),
                ..toc
            },
        ),
{
    reveal_strlit("Interface");
    reveal_strlit("Title");
    reveal_strlit("Notes");
    reveal_strlit("IconTexture");
    reveal_strlit("IconAtlas");
    reveal_strlit("AddonCompartmentFunc");
    reveal_strlit("AddonCompartmentFuncOnEnter");
    reveal_strlit("AddonCompartmentFuncOnLeave");
    reveal_strlit("LoadOnDemand");
    let key = "LoadOnDemand"@;
    assert(key[0] == 'L');
}

impl Default for Toc {
    fn default() -> (r: Toc)
        ensures
            r@ == TocView::empty(),
    {
        let r = Toc {
            interface: GameVersion::default(),
            title: None,
            notes: None,
            icon_texture: None,
            icon_atlas: None,
            addon_compartment_func: None,
            addon_compartment_func_on_enter: None,
            addon_compartment_func_on_leave: None,
            load_on_demand: None,
            dependencies: Vec::new(),
            optional_dependencies: Vec::new(),
            load_with: None,
            load_managers: None,
            default_state: None,
            saved_variables: None,
            saved_variables_per_character: None,
            author: None,
            version: None,
            files: Vec::new(),
            wago_id: None,
            wowi_id: None,
            tukui_id: None,
            curse_id: None,
            comments: Vec::new(),
            unknown_properties: Dict::new(),
        };
        proof {
            assert(r.comments.deep_view() == Seq::<Seq<char>>::empty());
            assert(r.unknown_properties@.map_values(|value: String| value@) == Map::<
                Seq<char>,
                Seq<char>,
            >::empty());
        }
        r
    }
}

/// The name of the metadata file of the add-on in the directory `dir`: the
/// file is named after the directory.
pub fn toc_file_name(dir: &str) -> (r: String)
    ensures
        r@ == dir@ + ".toc"@,
{
    let mut out: Vec<char> = Vec::new();
    extend_with(&mut out, dir);
    extend_with(&mut out, ".toc");
    string_from(&out)
}

/// The list that the dependency value `v[from..to]` names.
fn dependencies(v: &Vec<char>, from: usize, to: usize) -> (r: Vec<String>)
    requires
        from <= to <= v.len(),
    ensures
        r.deep_view() == dependencies_of(v@.subrange(from as int, to as int)),
{
    let ghost value = v@.subrange(from as int, to as int);
    let ghost f = |piece: Seq<char>| trim(piece);
    let mut out: Vec<String> = Vec::new();
    if from == to {
        return out;
    }
    let mut pos: usize = from;
    let mut done = false;
    while !done
        invariant
            from <= pos <= to <= v.len(),
            f == |piece: Seq<char>| trim(piece),
            value == v@.subrange(from as int, to as int),
            !done ==> out.deep_view() + split(v@.subrange(pos as int, to as int), ',').map_values(
                f,
            ) == split(value, ',').map_values(f),
            done ==> out.deep_view() == split(value, ',').map_values(f),
        decreases to - pos + (if done { 0int } else { 1int }),
    {
        let ghost rest = v@.subrange(pos as int, to as int);
        let ghost before = out.deep_view();
        let comma = position(v, pos, to, ',');
        let (a, b) = trim_bounds(v, pos, comma);
        let piece = string_of(v, a, b);
        out.push(piece);
        proof {
            assert(rest.take(comma - pos) == v@.subrange(pos as int, comma as int));
        }
        if comma < to {
            proof {
                let tail = split(rest.skip(comma - pos + 1), ',');
                assert(rest.skip(comma - pos + 1) == v@.subrange(comma + 1, to as int));
                assert((seq![rest.take(comma - pos)] + tail).map_values(f) == seq![
                    trim(rest.take(comma - pos)),
                ] + tail.map_values(f));
                assert(before + (seq![trim(rest.take(comma - pos))] + tail.map_values(f))
                    == before.push(trim(rest.take(comma - pos))) + tail.map_values(f));
            }
            pos = comma + 1;
        } else {
            done = true;
        }
    }
    out
}

impl Toc {
    /// Reads a metadata text.
    ///
    /// The text is refused only when it gives `X-Curse-Project-ID` a value
    /// that is no unsigned integer in the range of `usize`.
    pub fn from_str(s: &str) -> (r: Result<Toc, ParseError>)
        ensures
            reading(r) == parse(s@),
    {
        let v = chars_of(s);
        let n = v.len();
        let mut toc = Toc::default();
        let mut pos: usize = 0;
        assert(v@.skip(0) == v@);
        while pos < n
            invariant
                pos <= n == v.len(),
                v@ == s@,
                parse(s@) == with_lines(toc@, lines(v@.skip(pos as int))),
            decreases n - pos,
        {
            let ghost rest = v@.skip(pos as int);
            let feed = position(&v, pos, n, '\n');
            let end = if feed < n && pos < feed && v[feed - 1] == '\r' {
                (feed - 1) as usize
            } else {
                feed
            };
            proof {
                if feed < n {
                    assert(without_cr(rest.take(feed - pos)) == v@.subrange(
                        pos as int,
                        end as int,
                    ));
                    assert(rest.skip(feed - pos + 1) == v@.skip(feed + 1));
                    assert(lines(rest).drop_first() == lines(v@.skip(feed + 1)));
                } else {
                    assert(v@.skip(n as int) == Seq::<char>::empty());
                }
            }
            match toc.read_line(&v, pos, end) {
                Ok(()) => {},
                Err(e) => {
                    return Err(e);
                },
            }
            pos = if feed < n {
                feed + 1
            } else {
                n
            };
        }
        Ok(toc)
    }

    /// Reads one line of a metadata file, `v[from..to]`.
    fn read_line(&mut self, v: &Vec<char>, from: usize, to: usize) -> (r: Result<(), ParseError>)
        requires
            from <= to <= v.len(),
        ensures
            match r {
                Ok(()) => with_line(old(self)@, v@.subrange(from as int, to as int)) == Ok::<
                    TocView,
                    ParseErrorView,
                >(final(self)@),
                Err(e) => with_line(old(self)@, v@.subrange(from as int, to as int)) == Err::<
                    TocView,
                    ParseErrorView,
                >(e@) && final(self)@ == old(self)@,
            },
    {
        if from < to && v[from] == '#' {
            if from + 1 < to && v[from + 1] == '#' {
                self.read_property(v, from, to)
            } else {
                self.read_comment(v, from, to);
                Ok(())
            }
        } else if from == to {
            Ok(())
        } else {
            let ghost before = self.files.deep_view();
            let line = string_of(v, from, to);
            self.files.push(line);
            assert(self.files.deep_view() == before.push(v@.subrange(from as int, to as int)));
            Ok(())
        }
    }

    /// Reads the line of comment `v[from..to]`.
    fn read_comment(&mut self, v: &Vec<char>, from: usize, to: usize)
        requires
            from <= to <= v.len(),
        ensures
            final(self)@ == with_comment_line(old(self)@, v@.subrange(from as int, to as int)),
    {
        let ghost content = v@.subrange(from as int, to as int);
        let hash = position(v, from, to, '#');
        if hash < to {
            let ghost before = self.comments.deep_view();
            let (a, b) = trim_bounds(v, hash + 1, to);
            assert(content.skip(hash - from + 1) == v@.subrange(hash + 1, to as int));
            let comment = string_of(v, a, b);
            self.comments.push(comment);
            assert(self.comments.deep_view() == before.push(trim(content.skip(hash - from + 1))));
        }
    }

    /// Reads the line of properties `v[from..to]`.
    fn read_property(&mut self, v: &Vec<char>, from: usize, to: usize) -> (r: Result<
        (),
        ParseError,
    >)
        requires
            from <= to <= v.len(),
        ensures
            match r {
                Ok(()) => with_property_line(old(self)@, v@.subrange(from as int, to as int))
                    == Ok::<TocView, ParseErrorView>(final(self)@),
                Err(e) => with_property_line(old(self)@, v@.subrange(from as int, to as int))
                    == Err::<TocView, ParseErrorView>(e@) && final(self)@ == old(self)@,
            },
    {
        let ghost content = v@.subrange(from as int, to as int);
        let colon = position(v, from, to, ':');
        if colon >= to {
            return Ok(());
        }
        let mut start: usize = from;
        assert(content.take(colon - from) == v@.subrange(from as int, colon as int));
        while start < colon && v[start] == '#'
            invariant
                from <= start <= colon < to <= v.len(),
                without_hashes(v@.subrange(from as int, colon as int)) == without_hashes(
                    v@.subrange(start as int, colon as int),
                ),
            decreases colon - start,
        {
            assert(v@.subrange(start as int, colon as int).drop_first() == v@.subrange(
                start + 1,
                colon as int,
            ));
            start += 1;
        }
        let (ka, kb) = trim_bounds(v, start, colon);
        let (va, vb) = trim_bounds(v, colon + 1, to);
        assert(content.skip(colon - from + 1) == v@.subrange(colon + 1, to as int));
        self.set_property(v, ka, kb, va, vb)
    }

    /// Gives the property whose key is `v[ka..kb]` the value `v[va..vb]`.
    fn set_property(&mut self, v: &Vec<char>, ka: usize, kb: usize, va: usize, vb: usize) -> (r:
        Result<(), ParseError>)
        requires
            ka <= kb <= v.len(),
            va <= vb <= v.len(),
        ensures
            match r {
                Ok(()) => with_property(
                    old(self)@,
                    v@.subrange(ka as int, kb as int),
                    v@.subrange(va as int, vb as int),
                ) == Ok::<TocView, ParseErrorView>(final(self)@),
                Err(e) => with_property(
                    old(self)@,
                    v@.subrange(ka as int, kb as int),
                    v@.subrange(va as int, vb as int),
                ) == Err::<TocView, ParseErrorView>(e@) && final(self)@ == old(self)@,
            },
    {
        let ghost key = v@.subrange(ka as int, kb as int);
        let ghost value = v@.subrange(va as int, vb as int);
        if spells(v, ka, kb, "Interface") {
            let digits = copy_of(v, va, vb);
            self.interface = GameVersion::from_chars(&digits);
        } else if spells(v, ka, kb, "Title") {
            let colored = copy_of(v, va, vb);
            self.title = Some(string_from(&strip_chars(&colored)));
        } else if spells(v, ka, kb, "Notes") {
            let colored = copy_of(v, va, vb);
            self.notes = Some(string_from(&strip_chars(&colored)));
        } else if spells(v, ka, kb, "IconTexture") {
            self.icon_texture = Some(string_of(v, va, vb));
        } else if spells(v, ka, kb, "IconAtlas") {
            self.icon_atlas = Some(string_of(v, va, vb));
        } else if spells(v, ka, kb, "AddonCompartmentFunc") {
            self.addon_compartment_func = Some(string_of(v, va, vb));
        } else if spells(v, ka, kb, "AddonCompartmentFuncOnEnter") {
            self.addon_compartment_func_on_enter = Some(string_of(v, va, vb));
        } else if spells(v, ka, kb, "AddonCompartmentFuncOnLeave") {
            self.addon_compartment_func_on_leave = Some(string_of(v, va, vb));
        } else if spells(v, ka, kb, "LoadOnDemand") {
            self.load_on_demand = Some(
                match parse_i32(v, va, vb) {
                    Some(n) => n,
                    None => 0,
                },
            );
        } else if spells(v, ka, kb, "Dependencies") || spells(v, ka, kb, "RequiredDeps") {
            self.dependencies = dependencies(v, va, vb);
        } else if spells(v, ka, kb, "OptionalDependencies") || spells(v, ka, kb, "OptionalDeps") {
            self.optional_dependencies = dependencies(v, va, vb);
        } else if spells(v, ka, kb, "LoadWith") {
            self.load_with = Some(string_of(v, va, vb));
        } else if spells(v, ka, kb, "LoadManagers") {
            self.load_managers = Some(string_of(v, va, vb));
        } else if spells(v, ka, kb, "DefaultState") {
            self.default_state = Some(
                if spells(v, va, vb, "enabled") {
                    State::Enabled
                } else {
                    State::Disabled
                },
            );
        } else if spells(v, ka, kb, "SavedVariables") {
            self.saved_variables = Some(string_of(v, va, vb));
        } else if spells(v, ka, kb, "SavedVariablesPerCharacter") {
            self.saved_variables_per_character = Some(string_of(v, va, vb));
        } else if spells(v, ka, kb, "Author") {
            self.author = Some(string_of(v, va, vb));
        } else if spells(v, ka, kb, "Version") {
            self.version = Some(string_of(v, va, vb));
        } else if spells(v, ka, kb, "X-Wago-ID") {
            self.wago_id = Some(string_of(v, va, vb));
        } else if spells(v, ka, kb, "X-WoWI-ID") {
            self.wowi_id = Some(string_of(v, va, vb));
        } else if spells(v, ka, kb, "X-Tukui-ProjectID") {
            self.tukui_id = Some(string_of(v, va, vb));
        } else if spells(v, ka, kb, "X-Curse-Project-ID") {
            match parse_usize(v, va, vb) {
                Some(id) => {
                    self.curse_id = Some(id);
                },
                None => {
                    return Err(ParseError::CurseId(string_of(v, va, vb)));
                },
            }
        } else {
            let ghost before = self.unknown_properties@;
            let name = string_of(v, ka, kb);
            let text = string_of(v, va, vb);
            self.unknown_properties.insert(name, text);
            assert(self.unknown_properties@.map_values(|value: String| value@) == before.map_values(
                |value: String| value@,
            ).insert(key, value));
        }
        Ok(())
    }

    /// Reads a line of properties into the metadata.
    ///
    /// The line is refused only when it gives `X-Curse-Project-ID` a value
    /// that is no unsigned integer; the metadata is then left as it was.
    pub fn parse_toc_property(&mut self, content: &str) -> (r: Result<(), ParseError>)
        ensures
            match r {
                Ok(()) => with_property_line(old(self)@, content@) == Ok::<
                    TocView,
                    ParseErrorView,
                >(final(self)@),
                Err(e) => with_property_line(old(self)@, content@) == Err::<
                    TocView,
                    ParseErrorView,
                >(e@) && final(self)@ == old(self)@,
            },
    {
        let v = chars_of(content);
        assert(v@.subrange(0, v@.len() as int) == v@);
        self.read_property(&v, 0, v.len())
    }

    /// Reads a line of comment into the metadata.
    pub fn parse_toc_comment(&mut self, content: &str)
        ensures
            final(self)@ == with_comment_line(old(self)@, content@),
    {
        let v = chars_of(content);
        assert(v@.subrange(0, v@.len() as int) == v@);
        self.read_comment(&v, 0, v.len())
    }

    /// The list that a dependency value names.
    pub fn get_dependencies_vec(dependencies_str: &str) -> (r: Vec<String>)
        ensures
            r.deep_view() == dependencies_of(dependencies_str@),
    {
        let v = chars_of(dependencies_str);
        assert(v@.subrange(0, v@.len() as int) == v@);
        dependencies(&v, 0, v.len())
    }

    /// `line` without its colour markup.
    pub fn parse_colored_line(line: &str) -> (r: String)
        ensures
            r@ == strip(line@),
    {
        let v = chars_of(line);
        string_from(&strip_chars(&v))
    }

    /// What is left of the escape sequence `seq` without its markup.
    pub fn parse_escape_sequence(seq: &str) -> (r: String)
        ensures
            r@ == sequence_text(seq@),
    {
        let v = chars_of(seq);
        string_from(&sequence_chars(&v))
    }
}

} // verus!
