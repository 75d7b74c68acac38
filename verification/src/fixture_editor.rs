//! The fixture editor's configuration model and its windows.
use vstd::prelude::*;
use crate::types::DmxAddress;

verus! {

broadcast use vstd::string::group_string_axioms;

/// A channel group of a fixture template, by the addresses of its channels.
#[derive(Debug, Clone, Copy, PartialEq, Eq, Structural)]
pub enum ChannelGroup {
    Single(DmxAddress),
    RGB(DmxAddress, DmxAddress, DmxAddress),
    RGBA(DmxAddress, DmxAddress, DmxAddress, DmxAddress),
    Moving2D(DmxAddress, DmxAddress),
}

/// A kind of fixture: a name and its channel groups.
#[derive(Debug)]
pub struct FixtureTemplate {
    pub name: String,
    pub channel_groups: Vec<ChannelGroup>,
}

impl FixtureTemplate {
    /// An untitled template without channel groups.
    pub fn new_empty() -> (t: FixtureTemplate)
        ensures
            t.name@ == "Untitled"@,
            t.channel_groups@.len() == 0,
    {
        FixtureTemplate { name: "Untitled".to_string(), channel_groups: Vec::new() }
    }
}

/// A fixture of the stage: where it starts and which template it follows.
#[derive(Debug)]
pub struct Fixture {
    pub channel: i32,
    pub template_id: i32,
    pub name: String,
}

impl Fixture {
    /// An empty fixture of template `id` at channel 0.
    pub fn new_empty(id: i32) -> (f: Fixture)
        ensures
            f.channel == 0,
            f.template_id == id,
            f.name@ == "Empty"@,
    {
        Fixture { channel: 0, template_id: id, name: "Empty".to_string() }
    }
}

/// The stage of a configuration.
#[derive(Debug)]
pub struct Stage {
    pub name: String,
    pub fixtures: Vec<Fixture>,
}

impl Stage {
    /// An untitled stage without fixtures.
    pub fn new_empty() -> (s: Stage)
        ensures
            s.name@ == "Untitled"@,
            s.fixtures@.len() == 0,
    {
        Stage { name: "Untitled".to_string(), fixtures: Vec::new() }
    }
}

/// A fixture editor configuration.
#[derive(Debug)]
pub struct Config {
    pub fixture_templates: Vec<FixtureTemplate>,
    pub stage: Stage,
}

impl Config {
    /// A configuration without templates and with an empty, untitled stage.
    pub fn new_empty() -> (c: Config)
        ensures
            c.fixture_templates@.len() == 0,
            c.stage.name@ == "Untitled"@,
            c.stage.fixtures@.len() == 0,
    {
        Config { fixture_templates: Vec::new(), stage: Stage::new_empty() }
    }
}

/// Number of channels of a channel group type in the editor's list
/// `Single, RGB, RGBA, Moving2D`.
pub open spec fn spec_group_arity(group_type: usize) -> nat {
    if group_type == 1 {
        3
    } else if group_type == 2 {
        4
    } else if group_type == 3 {
        2
    } else {
        1
    }
}

/// The type of a channel group, its position in the editor's list.
pub open spec fn spec_group_kind(g: ChannelGroup) -> usize {
    match g {
        ChannelGroup::Single(_) => 0,
        ChannelGroup::RGB(_, _, _) => 1,
        ChannelGroup::RGBA(_, _, _, _) => 2,
        ChannelGroup::Moving2D(_, _) => 3,
    }
}

/// The channels of a channel group, in order.
pub open spec fn spec_group_channels(g: ChannelGroup) -> Seq<DmxAddress> {
    match g {
        ChannelGroup::Single(a) => seq![a],
        ChannelGroup::RGB(r, gr, b) => seq![r, gr, b],
        ChannelGroup::RGBA(r, gr, b, a) => seq![r, gr, b, a],
        ChannelGroup::Moving2D(x, y) => seq![x, y],
    }
}

/// The channel group of a type with the given channels; a type beyond the
/// list makes a single-channel group.
pub open spec fn spec_group_of(group_type: usize, values: Seq<DmxAddress>) -> ChannelGroup {
    if group_type == 1 {
        ChannelGroup::RGB(values[0], values[1], values[2])
    } else if group_type == 2 {
        ChannelGroup::RGBA(values[0], values[1], values[2], values[3])
    } else if group_type == 3 {
        ChannelGroup::Moving2D(values[0], values[1])
    } else {
        ChannelGroup::Single(values[0])
    }
}

/// The channels a newly chosen group type starts with: `0, 1, ...`, one per
/// channel of the type.
pub open spec fn spec_default_values(group_type: usize) -> Seq<DmxAddress> {
    Seq::new(spec_group_arity(group_type), |i: int| i as DmxAddress)
}

/// See `spec_default_values`.
pub fn default_group_values(group_type: usize) -> (v: Vec<DmxAddress>)
    ensures
        v@ == spec_default_values(group_type),
{
    let n: u16 = if group_type == 1 {
        3
    } else if group_type == 2 {
        4
    } else if group_type == 3 {
        2
    } else {
        1
    };
    let mut v: Vec<DmxAddress> = Vec::new();
    let mut i: u16 = 0;
    while i < n
        invariant
            n == spec_group_arity(group_type),
            i <= n,
            v@ == Seq::new(i as nat, |k: int| k as DmxAddress),
        decreases n - i,
    {
        v.push(i);
        i = i + 1;
        assert(v@ =~= Seq::new(i as nat, |k: int| k as DmxAddress));
    }
    v
}

/// The channel group of a type with the given channels (see
/// `spec_group_of`).
pub fn group_from_choice(group_type: usize, values: &Vec<DmxAddress>) -> (g: ChannelGroup)
    requires
        values@.len() >= spec_group_arity(group_type),
    ensures
        g == spec_group_of(group_type, values@),
{
    if group_type == 1 {
        ChannelGroup::RGB(values[0], values[1], values[2])
    } else if group_type == 2 {
        ChannelGroup::RGBA(values[0], values[1], values[2], values[3])
    } else if group_type == 3 {
        ChannelGroup::Moving2D(values[0], values[1])
    } else {
        ChannelGroup::Single(values[0])
    }
}

pub open spec fn spec_group_name(g: ChannelGroup) -> Seq<char> {
    match g {
        ChannelGroup::Single(_) => "Single"@,
        ChannelGroup::RGB(_, _, _) => "RGB"@,
        ChannelGroup::RGBA(_, _, _, _) => "RGBA"@,
        ChannelGroup::Moving2D(_, _) => "Moving2D"@,
    }
}

/// The name, channels and type of a channel group, as the group list shows
/// them.
pub fn describe_group(g: ChannelGroup) -> (r: (String, Vec<DmxAddress>, usize))
    ensures
        r.0@ == spec_group_name(g),
        r.1@ == spec_group_channels(g),
        r.2 == spec_group_kind(g),
{
    match g {
        ChannelGroup::Single(a) => ("Single".to_string(), vec![a], 0),
        ChannelGroup::RGB(r, gr, b) => ("RGB".to_string(), vec![r, gr, b], 1),
        ChannelGroup::RGBA(r, gr, b, a) => ("RGBA".to_string(), vec![r, gr, b, a], 2),
        ChannelGroup::Moving2D(x, y) => ("Moving2D".to_string(), vec![x, y], 3),
    }
}

/// Deleting while template `t` is open removes exactly template `t`: the
/// templates before it stay, the ones after it move down by one, and the
/// template list is shown again.
pub proof fn lemma_delete_template_removes_open(v: SessionView)
    requires
        session_wf(v),
        v.template is Some,
        v.group is None,
    ensures
        ({
            let t = v.template.unwrap() as int;
            let w = spec_delete_template(v);
            &&& w.templates.len() == v.templates.len() - 1
            &&& forall|i: int| 0 <= i < t ==> #[trigger] w.templates[i] == v.templates[i]
            &&& forall|i: int| t <= i < w.templates.len() ==> #[trigger] w.templates[i] == v.templates[i + 1]
            &&& w.template is None
            &&& session_wf(w)
        }),
{
}

/// Deleting while group `k` of template `t` is open removes exactly that
/// group: the template keeps its name and its other groups in order, every
/// other template stays, and the group list is shown again.
pub proof fn lemma_delete_group_removes_open(v: SessionView)
    requires
        session_wf(v),
        v.group is Some,
    ensures
        ({
            let t = v.template.unwrap() as int;
            let k = v.group.unwrap() as int;
            let old_groups = v.templates[t].groups;
            let w = spec_delete_group(v);
            let new_groups = w.templates[t].groups;
            &&& w.templates.len() == v.templates.len()
            &&& forall|i: int| 0 <= i < v.templates.len() && i != t ==> #[trigger] w.templates[i] == v.templates[i]
            &&& w.templates[t].name == v.templates[t].name
            &&& new_groups.len() == old_groups.len() - 1
            &&& forall|j: int| 0 <= j < k ==> #[trigger] new_groups[j] == old_groups[j]
            &&& forall|j: int| k <= j < new_groups.len() ==> #[trigger] new_groups[j] == old_groups[j + 1]
            &&& w.group is None
            &&& w.template == v.template
            &&& session_wf(w)
        }),
{
}

/// Building a group from its own type and channels gives it back.
pub proof fn lemma_group_choice_roundtrip(g: ChannelGroup)
    ensures
        spec_group_channels(g).len() == spec_group_arity(spec_group_kind(g)),
        spec_group_of(spec_group_kind(g), spec_group_channels(g)) == g,
{
}

/// A fixture template as the editor's contracts see it.
pub struct TemplateView {
    pub name: Seq<char>,
    pub groups: Seq<ChannelGroup>,
}

pub open spec fn view_template(t: FixtureTemplate) -> TemplateView {
    TemplateView { name: t.name@, groups: t.channel_groups@ }
}

pub open spec fn view_templates(t: Seq<FixtureTemplate>) -> Seq<TemplateView> {
    t.map_values(|x: FixtureTemplate| view_template(x))
}

/// An editing session as the contracts see it: the templates, the template
/// and the channel group that are open, and the type and channels of the
/// open group as they are being edited.
pub struct SessionView {
    pub templates: Seq<TemplateView>,
    pub template: Option<usize>,
    pub group: Option<usize>,
    pub group_type: usize,
    pub values: Seq<DmxAddress>,
}

/// Whether the open template and group exist, a group is open only inside
/// an open template, and the edited channels fit the edited type.
pub open spec fn session_wf(v: SessionView) -> bool {
    &&& (v.template matches Some(t) ==> t < v.templates.len())
    &&& (v.group is Some ==> v.template is Some)
    &&& (v.group matches Some(k) ==> k < v.templates[v.template.unwrap() as int].groups.len())
    &&& v.group_type < 4
    &&& v.values.len() == spec_group_arity(v.group_type)
}

pub open spec fn spec_new_template(v: SessionView) -> SessionView {
    SessionView { templates: v.templates.push(TemplateView { name: "Untitled"@, groups: Seq::empty() }), ..v }
}

pub open spec fn spec_open_template(v: SessionView, t: usize) -> SessionView {
    SessionView { template: Some(t), ..v }
}

pub open spec fn spec_close_template(v: SessionView) -> SessionView {
    SessionView { template: None, ..v }
}

pub open spec fn spec_delete_template(v: SessionView) -> SessionView {
    SessionView { templates: v.templates.remove(v.template.unwrap() as int), template: None, ..v }
}

pub open spec fn spec_new_group(v: SessionView) -> SessionView {
    let t = v.template.unwrap() as int;
    SessionView {
        templates: v.templates.update(
            t,
            TemplateView { groups: v.templates[t].groups.push(ChannelGroup::Single(0)), name: v.templates[t].name },
        ),
        ..v
    }
}

/// Opening group `k` of the open template loads its type and channels for
/// editing.
pub open spec fn spec_open_group(v: SessionView, k: usize) -> SessionView {
    let g = v.templates[v.template.unwrap() as int].groups[k as int];
    SessionView { group: Some(k), group_type: spec_group_kind(g), values: spec_group_channels(g), ..v }
}

/// Choosing a type starts its channels afresh.
pub open spec fn spec_choose_type(v: SessionView, group_type: usize) -> SessionView {
    SessionView { group_type, values: spec_default_values(group_type), ..v }
}

pub open spec fn spec_set_value(v: SessionView, index: usize, address: DmxAddress) -> SessionView {
    SessionView { values: v.values.update(index as int, address), ..v }
}

/// Going back from the open group stores the edited group in its place.
pub open spec fn spec_close_group(v: SessionView) -> SessionView {
    let t = v.template.unwrap() as int;
    let k = v.group.unwrap() as int;
    SessionView {
        templates: v.templates.update(
            t,
            TemplateView {
                groups: v.templates[t].groups.update(k, spec_group_of(v.group_type, v.values)),
                name: v.templates[t].name,
            },
        ),
        group: None,
        ..v
    }
}

pub open spec fn spec_delete_group(v: SessionView) -> SessionView {
    let t = v.template.unwrap() as int;
    let k = v.group.unwrap() as int;
    SessionView {
        templates: v.templates.update(
            t,
            TemplateView { groups: v.templates[t].groups.remove(k), name: v.templates[t].name },
        ),
        group: None,
        ..v
    }
}

/// The fixture editor working on a loaded configuration.
pub struct EditorSession {
    pub config: Config,
    pub template: Option<usize>,
    pub group: Option<usize>,
    pub group_type: usize,
    pub group_values: Vec<DmxAddress>,
}

impl View for EditorSession {
    type V = SessionView;

    open spec fn view(&self) -> SessionView {
        SessionView {
            templates: view_templates(self.config.fixture_templates@),
            template: self.template,
            group: self.group,
            group_type: self.group_type,
            values: self.group_values@,
        }
    }
}

impl EditorSession {
    /// A session on `config` that shows the template list.
    pub fn new(config: Config) -> (s: EditorSession)
        ensures
            session_wf(s@),
            s.config == config,
            s@.template is None,
            s@.group is None,
            s@.group_type == 0,
            s@.values == seq![0u16],
    {
        let s = EditorSession { config, template: None, group: None, group_type: 0, group_values: vec![0] };
        s
    }

    /// Adds an untitled template without groups.
    pub fn new_template(&mut self)
        requires
            session_wf(old(self)@),
        ensures
            session_wf(final(self)@),
            final(self)@ == spec_new_template(old(self)@),
            final(self).config.stage == old(self).config.stage,
    {
        let ghost before = self.config.fixture_templates@;
        let fresh = FixtureTemplate::new_empty();
        assert(fresh.channel_groups@ =~= Seq::<ChannelGroup>::empty());
        self.config.fixture_templates.push(fresh);
        assert(view_templates(self.config.fixture_templates@) =~= view_templates(before).push(
            TemplateView { name: "Untitled"@, groups: Seq::empty() },
        ));
    }

    /// Opens template `t`.
    pub fn open_template(&mut self, t: usize)
        requires
            session_wf(old(self)@),
            old(self)@.group is None,
            t < old(self)@.templates.len(),
        ensures
            session_wf(final(self)@),
            final(self)@ == spec_open_template(old(self)@, t),
            final(self).config == old(self).config,
    {
        self.template = Some(t);
    }

    /// Goes back from the open template to the template list.
    pub fn close_template(&mut self)
        requires
            session_wf(old(self)@),
            old(self)@.group is None,
        ensures
            session_wf(final(self)@),
            final(self)@ == spec_close_template(old(self)@),
            final(self).config == old(self).config,
    {
        self.template = None;
    }

    /// Deletes the open template and goes back to the template list.
    pub fn delete_template(&mut self)
        requires
            session_wf(old(self)@),
            old(self)@.template is Some,
            old(self)@.group is None,
        ensures
            session_wf(final(self)@),
            final(self)@ == spec_delete_template(old(self)@),
            final(self).config.stage == old(self).config.stage,
    {
        let t = self.template.unwrap();
        let ghost before = self.config.fixture_templates@;
        self.config.fixture_templates.remove(t);
        assert(view_templates(self.config.fixture_templates@) =~= view_templates(before).remove(t as int));
        self.template = None;
    }

    /// Adds a single-channel group on channel 0 to the open template.
    pub fn new_group(&mut self)
        requires
            session_wf(old(self)@),
            old(self)@.template is Some,
        ensures
            session_wf(final(self)@),
            final(self)@ == spec_new_group(old(self)@),
            final(self).config.stage == old(self).config.stage,
    {
        let t = self.template.unwrap();
        let ghost before = self.config.fixture_templates@;
        self.config.fixture_templates[t].channel_groups.push(ChannelGroup::Single(0));
        assert(view_templates(self.config.fixture_templates@) =~= spec_new_group(old(self)@).templates);
    }

    /// Opens group `k` of the open template (see `spec_open_group`).
    pub fn open_group(&mut self, k: usize)
        requires
            session_wf(old(self)@),
            old(self)@.template is Some,
            old(self)@.group is None,
            k < old(self)@.templates[old(self)@.template.unwrap() as int].groups.len(),
        ensures
            session_wf(final(self)@),
            final(self)@ == spec_open_group(old(self)@, k),
            final(self).config == old(self).config,
    {
        let t = self.template.unwrap();
        let g = self.config.fixture_templates[t].channel_groups[k];
        let (_, channels, kind) = describe_group(g);
        self.group = Some(k);
        self.group_type = kind;
        self.group_values = channels;
    }

    /// Chooses the type of the open group (see `spec_choose_type`).
    pub fn choose_group_type(&mut self, group_type: usize)
        requires
            session_wf(old(self)@),
            group_type < 4,
        ensures
            session_wf(final(self)@),
            final(self)@ == spec_choose_type(old(self)@, group_type),
            final(self).config == old(self).config,
    {
        self.group_type = group_type;
        self.group_values = default_group_values(group_type);
    }

    /// Sets channel `index` of the open group.
    pub fn set_group_value(&mut self, index: usize, address: DmxAddress)
        requires
            session_wf(old(self)@),
            index < old(self)@.values.len(),
        ensures
            session_wf(final(self)@),
            final(self)@ == spec_set_value(old(self)@, index, address),
            final(self).config == old(self).config,
    {
        self.group_values.set(index, address);
    }

    /// Stores the edited group in place of the open group and goes back to
    /// the group list.
    pub fn close_group(&mut self)
        requires
            session_wf(old(self)@),
            old(self)@.group is Some,
        ensures
            session_wf(final(self)@),
            final(self)@ == spec_close_group(old(self)@),
            final(self).config.stage == old(self).config.stage,
    {
        let t = self.template.unwrap();
        let k = self.group.unwrap();
        let g = group_from_choice(self.group_type, &self.group_values);
        self.config.fixture_templates[t].channel_groups.set(k, g);
        assert(view_templates(self.config.fixture_templates@) =~= spec_close_group(old(self)@).templates);
        self.group = None;
    }

    /// Deletes the open group and goes back to the group list.
    pub fn delete_group(&mut self)
        requires
            session_wf(old(self)@),
            old(self)@.group is Some,
        ensures
            session_wf(final(self)@),
            final(self)@ == spec_delete_group(old(self)@),
            final(self).config.stage == old(self).config.stage,
    {
        let t = self.template.unwrap();
        let k = self.group.unwrap();
        self.config.fixture_templates[t].channel_groups.remove(k);
        assert(view_templates(self.config.fixture_templates@) =~= spec_delete_group(old(self)@).templates);
        self.group = None;
    }
}

/// Opening a group and going straight back leaves every template as it was.
pub proof fn lemma_open_close_group(v: SessionView, k: usize)
    requires
        session_wf(v),
        v.template is Some,
        v.group is None,
        k < v.templates[v.template.unwrap() as int].groups.len(),
    ensures
        spec_close_group(spec_open_group(v, k)).templates == v.templates,
        spec_close_group(spec_open_group(v, k)).group is None,
        spec_close_group(spec_open_group(v, k)).template == v.template,
{
    let t = v.template.unwrap() as int;
    let g = v.templates[t].groups[k as int];
    lemma_group_choice_roundtrip(g);
    assert(v.templates[t].groups.update(k as int, g) =~= v.templates[t].groups);
    assert(v.templates.update(t, TemplateView { groups: v.templates[t].groups, name: v.templates[t].name })
        =~= v.templates);
}

/// Choosing a type for the open group and going back stores a group of that
/// type on channels `0, 1, ...`.
pub proof fn lemma_choose_type_close_group(v: SessionView, group_type: usize)
    requires
        session_wf(v),
        v.group is Some,
        group_type < 4,
    ensures
        spec_close_group(spec_choose_type(v, group_type)).templates[v.template.unwrap() as int].groups[v.group.unwrap() as int]
            == spec_group_of(group_type, spec_default_values(group_type)),
        spec_group_kind(spec_group_of(group_type, spec_default_values(group_type))) == group_type,
        spec_group_channels(spec_group_of(group_type, spec_default_values(group_type))) == spec_default_values(group_type),
{
    let d = spec_default_values(group_type);
    assert(spec_group_channels(spec_group_of(group_type, d)) =~= d);
}

/// How often the editor compares the configuration with what was saved:
/// once every this many frames.
pub const SAVE_CHECK_FRAMES: u32 = 30;

/// The editor's save indicator: frames counted since the last comparison,
/// and whether the configuration differed from what was saved then.
pub struct SaveIndicator {
    pub frames: u32,
    pub unsaved: bool,
}

impl SaveIndicator {
    /// No frame counted, nothing unsaved.
    pub fn new() -> (s: SaveIndicator)
        ensures
            s.frames == 0,
            !s.unsaved,
    {
        SaveIndicator { frames: 0, unsaved: false }
    }

    /// Counts a frame; on every `SAVE_CHECK_FRAMES`-th frame the count
    /// starts over and it is time to compare the configuration with what
    /// was saved.
    pub fn tick(&mut self) -> (compare: bool)
        ensures
            compare == (old(self).frames + 1 >= SAVE_CHECK_FRAMES),
            compare ==> final(self).frames == 0,
            !compare ==> final(self).frames == old(self).frames + 1,
            final(self).unsaved == old(self).unsaved,
    {
        if self.frames >= SAVE_CHECK_FRAMES - 1 {
            self.frames = 0;
            true
        } else {
            self.frames = self.frames + 1;
            false
        }
    }

    /// Records the outcome of a comparison: whether the encoded
    /// configuration equals the text that was saved.
    pub fn compared(&mut self, same_as_saved: bool)
        ensures
            final(self).unsaved == !same_as_saved,
            final(self).frames == old(self).frames,
    {
        self.unsaved = !same_as_saved;
    }
}

/// What pressing the close button does.
#[derive(Debug, Clone, Copy, PartialEq, Eq, Structural)]
pub enum CloseAction {
    /// Drop the configuration and show the list of configurations.
    Close,
    /// Ask whether the unsaved changes are to be saved first.
    AskToSave,
}

/// The close button closes at once where nothing is unsaved, and asks
/// first otherwise.
pub fn close_action(unsaved: bool) -> (a: CloseAction)
    ensures
        a == (if unsaved { CloseAction::AskToSave } else { CloseAction::Close }),
{
    if unsaved {
        CloseAction::AskToSave
    } else {
        CloseAction::Close
    }
}

/// The fixture editor window.
pub struct FixtureWindow {}

impl FixtureWindow {
    pub fn new() -> (w: FixtureWindow) {
        FixtureWindow {  }
    }
}

/// A window that shows an error message.
pub struct ErrorWindow {}

} // verus!
