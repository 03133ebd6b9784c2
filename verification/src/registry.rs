//! What a backend knows of its sandboxes: the handles by name, the names to clean up when
//! it closes, and under which other name a restore came up.

use vstd::prelude::*;
use vstd::string::*;

use crate::commands;
use crate::model;
use crate::text;

verus! {

/// A map from texts to values.
#[derive(Debug)]
pub struct TextMap<V> {
    keys: Vec<String>,
    values: Vec<V>,
}

impl<V> View for TextMap<V> {
    type V = Map<Seq<char>, V>;

    closed spec fn view(&self) -> Map<Seq<char>, V> {
        Map::new(
            |key: Seq<char>| text::texts(self.keys@).contains(key),
            |key: Seq<char>| self.values@[text::texts(self.keys@).index_of(key)],
        )
    }
}

impl<V> TextMap<V> {
    /// Each key stands once, and has a value.
    pub closed spec fn wf(&self) -> bool {
        self.keys@.len() == self.values@.len() && text::texts(self.keys@).no_duplicates()
    }

    /// A map of nothing.
    pub fn new() -> (map: TextMap<V>)
        ensures
            map.wf(),
            map@ == Map::<Seq<char>, V>::empty(),
    {
        let map = TextMap { keys: Vec::new(), values: Vec::new() };
        assert(map@ =~= Map::empty());
        map
    }

    /// Where a key stands.
    fn position(&self, key: &str) -> (at: Option<usize>)
        requires
            self.wf(),
        ensures
            match at {
                Some(at) => at < self.keys@.len() && self.keys@[at as int]@ == key@
                    && self@.dom().contains(key@) && self@[key@] == self.values@[at as int],
                None => !self@.dom().contains(key@) && !text::texts(self.keys@).contains(key@),
            },
    {
        let mut i: usize = 0;
        while i < self.keys.len()
            invariant
                self.wf(),
                i <= self.keys@.len(),
                forall|j: int| 0 <= j < i ==> self.keys@[j]@ != key@,
            decreases self.keys.len() - i,
        {
            if text::same_text(self.keys[i].as_str(), key) {
                let ghost names = text::texts(self.keys@);
                assert(names[i as int] == key@);
                assert(names.contains(key@));
                assert(names[names.index_of(key@)] == key@);
                assert(names.index_of(key@) == i);
                return Some(i);
            }
            i = i + 1;
        }
        assert forall|j: int| 0 <= j < text::texts(self.keys@).len() implies text::texts(
            self.keys@,
        )[j] != key@ by {
            assert(text::texts(self.keys@)[j] == self.keys@[j]@);
        }
        None
    }

    /// Whether there is a value for a key.
    pub fn contains(&self, key: &str) -> (yes: bool)
        requires
            self.wf(),
        ensures
            yes == self@.dom().contains(key@),
    {
        self.position(key).is_some()
    }

    /// The value for a key.
    pub fn get(&self, key: &str) -> (value: Option<&V>)
        requires
            self.wf(),
        ensures
            match value {
                Some(value) => self@.dom().contains(key@) && *value == self@[key@],
                None => !self@.dom().contains(key@),
            },
    {
        match self.position(key) {
            Some(at) => Some(&self.values[at]),
            None => None,
        }
    }

    /// Takes the value for a key out.
    pub fn remove(&mut self, key: &str) -> (value: Option<V>)
        requires
            old(self).wf(),
        ensures
            final(self).wf(),
            final(self)@ == old(self)@.remove(key@),
            match value {
                Some(value) => old(self)@.dom().contains(key@) && value == old(self)@[key@],
                None => !old(self)@.dom().contains(key@),
            },
    {
        match self.position(key) {
            Some(at) => {
                let ghost names = text::texts(self.keys@);
                let ghost values = self.values@;
                let _ = self.keys.remove(at);
                let value = self.values.remove(at);
                let ghost left = text::texts(self.keys@);
                proof {
                    assert(left =~= names.remove(at as int));
                    assert(left.no_duplicates()) by {
                        assert forall|i: int, j: int| 0 <= i < left.len() && 0 <= j < left.len()
                            && i != j implies left[i] != left[j] by {
                            let before_i = if i < at { i } else { i + 1 };
                            let before_j = if j < at { j } else { j + 1 };
                            assert(left[i] == names[before_i]);
                            assert(left[j] == names[before_j]);
                        }
                    }
                    let wanted = old(self)@.remove(key@);
                    assert forall|other: Seq<char>| self@.dom().contains(other)
                        == wanted.dom().contains(other) by {
                        if left.contains(other) {
                            let i = choose|i: int| 0 <= i < left.len() && left[i] == other;
                            let before = if i < at { i } else { i + 1 };
                            assert(names[before] == other);
                            assert(names[at as int] == key@);
                            assert(names.contains(other));
                            assert(other != key@);
                        }
                        if names.contains(other) && other != key@ {
                            let i = choose|i: int| 0 <= i < names.len() && names[i] == other;
                            assert(i != at);
                            let after = if i < at { i } else { i - 1 };
                            assert(left[after] == other);
                            assert(left.contains(other));
                        }
                    }
                    assert forall|other: Seq<char>| self@.dom().contains(other) implies self@[other]
                        == wanted[other] by {
                        let i = left.index_of(other);
                        assert(left.contains(other));
                        assert(0 <= i < left.len() && left[i] == other);
                        let before = if i < at { i } else { i + 1 };
                        assert(left[i] == names[before]);
                        assert(names.contains(other));
                        assert(names[names.index_of(other)] == other);
                        assert(names.index_of(other) == before);
                        assert(self.values@ =~= values.remove(at as int));
                        assert(self.values@[i] == values[before]);
                        assert(old(self)@[other] == values[before]);
                        assert(wanted.dom().contains(other));
                    }
                    assert(self@ =~= wanted);
                }
                Some(value)
            },
            None => {
                assert(self@ =~= old(self)@.remove(key@));
                None
            },
        }
    }

    /// Puts a value under a key, in place of the one that was there.
    pub fn insert(&mut self, key: &str, value: V)
        requires
            old(self).wf(),
        ensures
            final(self).wf(),
            final(self)@ == old(self)@.insert(key@, value),
    {
        let _ = self.remove(key);
        let ghost before = self@;
        let ghost names = text::texts(self.keys@);
        let ghost values = self.values@;
        self.keys.push(key.to_owned());
        self.values.push(value);
        proof {
            let now = text::texts(self.keys@);
            assert(now =~= names.push(key@));
            assert(!names.contains(key@)) by {
                assert(!before.dom().contains(key@));
            }
            assert(now.no_duplicates()) by {
                assert forall|i: int, j: int| 0 <= i < now.len() && 0 <= j < now.len() && i
                    != j implies now[i] != now[j] by {
                    if i < names.len() {
                        assert(names.contains(names[i]));
                    }
                    if j < names.len() {
                        assert(names.contains(names[j]));
                    }
                }
            }
            let wanted = before.insert(key@, value);
            assert forall|other: Seq<char>| self@.dom().contains(other) == wanted.dom().contains(
                other,
            ) by {
                if names.contains(other) {
                    let i = choose|i: int| 0 <= i < names.len() && names[i] == other;
                    assert(now[i] == other);
                }
                assert(now[names.len() as int] == key@);
                if now.contains(other) && other != key@ {
                    let i = choose|i: int| 0 <= i < now.len() && now[i] == other;
                    assert(i < names.len());
                    assert(names[i] == other);
                }
            }
            assert forall|other: Seq<char>| self@.dom().contains(other) implies self@[other]
                == wanted[other] by {
                let i = now.index_of(other);
                assert(now.contains(other));
                assert(0 <= i < now.len() && now[i] == other);
                if i < names.len() {
                    assert(names[i] == other);
                    assert(names.contains(other));
                    assert(names[names.index_of(other)] == other);
                    assert(names.index_of(other) == i);
                    assert(self.values@[i] == values[i]);
                } else {
                    assert(other == key@);
                    assert(self.values@[i] == value);
                }
            }
            assert(self@ =~= wanted);
            assert(wanted =~= old(self)@.insert(key@, value));
        }
    }

    /// The keys, each once.
    pub fn keys(&self) -> (keys: Vec<String>)
        requires
            self.wf(),
        ensures
            text::texts(keys@).no_duplicates(),
            forall|key: Seq<char>|
                text::texts(keys@).contains(key) <==> self@.dom().contains(key),
    {
        let keys = self.keys.clone();
        assert(text::texts(keys@) =~= text::texts(self.keys@));
        keys
    }
}

/// What is attached to a sandbox: the process that stays with it, the resources that are
/// let go of when it stops, and the command line that its last checkpoint captured.
#[derive(Debug)]
pub struct HandleState<C, R> {
    pub attached: Option<C>,
    pub resources: Vec<R>,
    pub captured_cmdline: Option<Vec<String>>,
}

/// The contents of a [`HandleState`].
pub struct StateView<C, R> {
    pub attached: Option<C>,
    pub resources: Seq<R>,
    pub captured: Option<Seq<Seq<char>>>,
}

impl<C, R> View for HandleState<C, R> {
    type V = StateView<C, R>;

    open spec fn view(&self) -> StateView<C, R> {
        StateView {
            attached: self.attached,
            resources: self.resources@,
            captured: commands::texts_option(self.captured_cmdline),
        }
    }
}

/// Nothing attached.
pub open spec fn fresh_state<C, R>() -> StateView<C, R> {
    StateView { attached: None, resources: Seq::empty(), captured: None }
}

impl<C, R> HandleState<C, R> {
    /// Nothing attached.
    pub fn new() -> (state: HandleState<C, R>)
        ensures
            state@ == fresh_state::<C, R>(),
    {
        HandleState { attached: None, resources: Vec::new(), captured_cmdline: None }
    }
}

/// What a backend knows of its sandboxes.
#[derive(Debug)]
pub struct Registry<C, R> {
    handles: TextMap<HandleState<C, R>>,
    started: TextMap<()>,
    rekeyed: TextMap<String>,
}

/// The contents of a [`Registry`].
pub struct RegistryView<C, R> {
    /// What is attached to each sandbox.
    pub handles: Map<Seq<char>, StateView<C, R>>,
    /// The sandboxes to clean up when the backend closes.
    pub started: Set<Seq<char>>,
    /// For the name a container was to have, the name it came up under.
    pub rekeyed: Map<Seq<char>, Seq<char>>,
}

impl<C, R> View for Registry<C, R> {
    type V = RegistryView<C, R>;

    closed spec fn view(&self) -> RegistryView<C, R> {
        RegistryView {
            handles: self.handles@.map_values(|state: HandleState<C, R>| state@),
            started: self.started@.dom(),
            rekeyed: self.rekeyed@.map_values(|name: String| name@),
        }
    }
}

/// A registry in which a container was created.
pub open spec fn created<C, R>(registry: RegistryView<C, R>, name: Seq<char>) -> RegistryView<
    C,
    R,
> {
    RegistryView { handles: registry.handles.insert(name, fresh_state()), ..registry }
}

/// The names to clean up, with a sandbox that came up; one that outlives its run is none.
pub open spec fn with_started(started: Set<Seq<char>>, name: Seq<char>, keep_alive: bool) -> Set<
    Seq<char>,
> {
    if keep_alive {
        started
    } else {
        started.insert(name)
    }
}

/// A registry in which a container was started: under the name it was to have, where its
/// handle only gets a process; or under another, which then has its place.
pub open spec fn started_as<C, R>(
    registry: RegistryView<C, R>,
    id: Seq<char>,
    winner: Seq<char>,
    attached: Option<C>,
    keep_alive: bool,
) -> RegistryView<C, R> {
    let started = with_started(registry.started, winner, keep_alive);
    if winner == id {
        if registry.handles.dom().contains(id) {
            RegistryView {
                handles: registry.handles.insert(
                    id,
                    StateView { attached, ..registry.handles[id] },
                ),
                started,
                ..registry
            }
        } else {
            RegistryView { started, ..registry }
        }
    } else {
        RegistryView {
            handles: registry.handles.remove(id).insert(
                winner,
                StateView { attached, ..fresh_state() },
            ),
            started,
            rekeyed: registry.rekeyed.insert(id, winner),
        }
    }
}

/// The other name that a container came up under, where it has not been told yet.
pub open spec fn winner_of<C, R>(registry: RegistryView<C, R>, id: Seq<char>) -> Option<
    Seq<char>,
> {
    if registry.rekeyed.dom().contains(id) {
        Some(registry.rekeyed[id])
    } else {
        None
    }
}

/// A registry that has told under which other name a container came up.
pub open spec fn winner_told<C, R>(registry: RegistryView<C, R>, id: Seq<char>) -> RegistryView<
    C,
    R,
> {
    RegistryView { rekeyed: registry.rekeyed.remove(id), ..registry }
}

/// A registry in which a container was stopped: its resources and its process were taken.
pub open spec fn stopped<C, R>(registry: RegistryView<C, R>, id: Seq<char>) -> RegistryView<C, R> {
    if registry.handles.dom().contains(id) {
        RegistryView {
            handles: registry.handles.insert(
                id,
                StateView {
                    attached: None,
                    resources: Seq::empty(),
                    captured: registry.handles[id].captured,
                },
            ),
            ..registry
        }
    } else {
        registry
    }
}

/// A registry in which a container was removed.
pub open spec fn removed<C, R>(registry: RegistryView<C, R>, id: Seq<char>) -> RegistryView<C, R> {
    RegistryView {
        handles: registry.handles.remove(id),
        started: registry.started.remove(id),
        ..registry
    }
}

/// A registry in which a checkpoint of a container was taken, and the container was booted
/// again under a fresh name.
pub open spec fn checkpointed<C, R>(
    registry: RegistryView<C, R>,
    id: Seq<char>,
    fresh: Seq<char>,
    attached: Option<C>,
    captured: Option<Seq<Seq<char>>>,
    keep_alive: bool,
) -> RegistryView<C, R> {
    RegistryView {
        handles: registry.handles.remove(id).insert(
            fresh,
            StateView { attached, resources: Seq::empty(), captured },
        ),
        started: with_started(registry.started.remove(id), fresh, keep_alive),
        ..registry
    }
}

/// A registry in which a running sandbox was found.
pub open spec fn adopted<C, R>(registry: RegistryView<C, R>, name: Seq<char>) -> RegistryView<
    C,
    R,
> {
    if registry.handles.dom().contains(name) {
        registry
    } else {
        created(registry, name)
    }
}

impl<C, R> Registry<C, R> {
    /// Each name stands once in each of the three maps.
    pub closed spec fn wf(&self) -> bool {
        self.handles.wf() && self.started.wf() && self.rekeyed.wf()
    }

    /// A registry of nothing.
    pub fn new() -> (registry: Registry<C, R>)
        ensures
            registry.wf(),
            registry@.handles == Map::<Seq<char>, StateView<C, R>>::empty(),
            registry@.started == Set::<Seq<char>>::empty(),
            registry@.rekeyed == Map::<Seq<char>, Seq<char>>::empty(),
    {
        let registry = Registry {
            handles: TextMap::new(),
            started: TextMap::new(),
            rekeyed: TextMap::new(),
        };
        assert(registry@.handles =~= Map::<Seq<char>, StateView<C, R>>::empty());
        assert(registry@.started =~= Set::<Seq<char>>::empty());
        assert(registry@.rekeyed =~= Map::<Seq<char>, Seq<char>>::empty());
        registry
    }

    /// Puts a handle under a name, in place of the one that was there.
    fn put(&mut self, name: &str, state: HandleState<C, R>)
        requires
            old(self).wf(),
        ensures
            final(self).wf(),
            final(self)@ == (RegistryView {
                handles: old(self)@.handles.insert(name@, state@),
                ..old(self)@
            }),
    {
        self.handles.insert(name, state);
        assert(self@.handles =~= old(self)@.handles.insert(name@, state@));
    }

    /// Takes the handle under a name out.
    fn take(&mut self, name: &str) -> (state: Option<HandleState<C, R>>)
        requires
            old(self).wf(),
        ensures
            final(self).wf(),
            final(self)@ == (RegistryView {
                handles: old(self)@.handles.remove(name@),
                ..old(self)@
            }),
            match state {
                Some(state) => old(self)@.handles.dom().contains(name@) && state@
                    == old(self)@.handles[name@],
                None => !old(self)@.handles.dom().contains(name@),
            },
    {
        let state = self.handles.remove(name);
        assert(self@.handles =~= old(self)@.handles.remove(name@));
        state
    }

    /// Notes a sandbox to clean up, unless it outlives its run.
    fn note_started(&mut self, name: &str, keep_alive: bool)
        requires
            old(self).wf(),
        ensures
            final(self).wf(),
            final(self)@ == (RegistryView {
                started: with_started(old(self)@.started, name@, keep_alive),
                ..old(self)@
            }),
    {
        if !keep_alive {
            self.started.insert(name, ());
            assert(self@.started =~= old(self)@.started.insert(name@));
        }
    }

    /// Notes that a container was created.
    pub fn create(&mut self, name: &str)
        requires
            old(self).wf(),
        ensures
            final(self).wf(),
            final(self)@ == created(old(self)@, name@),
    {
        self.put(name, HandleState::new());
    }

    /// Notes that a container was started, and under which name it came up.
    pub fn start(&mut self, id: &str, winner: &str, attached: Option<C>, keep_alive: bool)
        requires
            old(self).wf(),
        ensures
            final(self).wf(),
            final(self)@ == started_as(old(self)@, id@, winner@, attached, keep_alive),
    {
        if text::same_text(winner, id) {
            match self.take(id) {
                Some(state) => {
                    let mut state = state;
                    state.attached = attached;
                    self.put(id, state);
                    assert(self@.handles =~= old(self)@.handles.insert(id@, state@));
                },
                None => {
                    assert(self@.handles =~= old(self)@.handles);
                },
            }
        } else {
            let _ = self.take(id);
            let mut state = HandleState::new();
            state.attached = attached;
            self.put(winner, state);
            self.rekeyed.insert(id, winner.to_owned());
            assert(self@.rekeyed =~= old(self)@.rekeyed.insert(id@, winner@));
        }
        self.note_started(winner, keep_alive);
    }

    /// The other name that a container came up under, told once.
    pub fn winning_start(&mut self, id: &str) -> (winner: Option<String>)
        requires
            old(self).wf(),
        ensures
            final(self).wf(),
            final(self)@ == winner_told(old(self)@, id@),
            model::text_option(winner) == winner_of(old(self)@, id@),
    {
        let winner = self.rekeyed.remove(id);
        assert(self@.rekeyed =~= old(self)@.rekeyed.remove(id@));
        winner
    }

    /// Takes what is attached to a container that is to be stopped.
    pub fn stop(&mut self, id: &str) -> (taken: (Vec<R>, Option<C>))
        requires
            old(self).wf(),
        ensures
            final(self).wf(),
            final(self)@ == stopped(old(self)@, id@),
            if old(self)@.handles.dom().contains(id@) {
                taken.0@ == old(self)@.handles[id@].resources && taken.1
                    == old(self)@.handles[id@].attached
            } else {
                taken.0@.len() == 0 && taken.1 is None
            },
    {
        match self.take(id) {
            Some(state) => {
                self.put(
                    id,
                    HandleState {
                        attached: None,
                        resources: Vec::new(),
                        captured_cmdline: state.captured_cmdline,
                    },
                );
                assert(self@.handles =~= stopped(old(self)@, id@).handles);
                (state.resources, state.attached)
            },
            None => {
                assert(self@.handles =~= old(self)@.handles);
                (Vec::new(), None)
            },
        }
    }

    /// Takes the process of a container that a checkpoint is to be taken of.
    pub fn detach(&mut self, id: &str) -> (attached: Option<C>)
        requires
            old(self).wf(),
        ensures
            final(self).wf(),
            final(self)@ == (RegistryView {
                handles: if old(self)@.handles.dom().contains(id@) {
                    old(self)@.handles.insert(
                        id@,
                        StateView { attached: None, ..old(self)@.handles[id@] },
                    )
                } else {
                    old(self)@.handles
                },
                ..old(self)@
            }),
            attached == (if old(self)@.handles.dom().contains(id@) {
                old(self)@.handles[id@].attached
            } else {
                None
            }),
    {
        match self.take(id) {
            Some(state) => {
                self.put(
                    id,
                    HandleState {
                        attached: None,
                        resources: state.resources,
                        captured_cmdline: state.captured_cmdline,
                    },
                );
                assert(self@.handles =~= old(self)@.handles.insert(
                    id@,
                    StateView { attached: None, ..old(self)@.handles[id@] },
                ));
                state.attached
            },
            None => {
                assert(self@.handles =~= old(self)@.handles);
                None
            },
        }
    }

    /// Notes that a container was removed; what was attached to it is handed out.
    pub fn remove(&mut self, id: &str) -> (state: Option<HandleState<C, R>>)
        requires
            old(self).wf(),
        ensures
            final(self).wf(),
            final(self)@ == removed(old(self)@, id@),
            match state {
                Some(state) => old(self)@.handles.dom().contains(id@) && state@
                    == old(self)@.handles[id@],
                None => !old(self)@.handles.dom().contains(id@),
            },
    {
        let _ = self.started.remove(id);
        assert(self@.started =~= old(self)@.started.remove(id@));
        self.take(id)
    }

    /// Gives a container more resources; those of a container that is not known are handed
    /// back.
    pub fn add_resources(&mut self, id: &str, resources: Vec<R>) -> (left: Vec<R>)
        requires
            old(self).wf(),
        ensures
            final(self).wf(),
            if old(self)@.handles.dom().contains(id@) {
                left@.len() == 0 && final(self)@ == (RegistryView {
                    handles: old(self)@.handles.insert(
                        id@,
                        StateView {
                            resources: old(self)@.handles[id@].resources + resources@,
                            ..old(self)@.handles[id@]
                        },
                    ),
                    ..old(self)@
                })
            } else {
                left == resources && final(self)@ == old(self)@
            },
    {
        match self.take(id) {
            Some(state) => {
                let mut state = state;
                let mut resources = resources;
                state.resources.append(&mut resources);
                self.put(id, state);
                assert(self@.handles =~= old(self)@.handles.insert(
                    id@,
                    StateView {
                        resources: state.resources@,
                        ..old(self)@.handles[id@]
                    },
                ));
                resources
            },
            None => {
                assert(self@.handles =~= old(self)@.handles);
                resources
            },
        }
    }

    /// Notes that a checkpoint of a container was taken, and that the container was booted
    /// again under a fresh name.
    pub fn checkpoint(
        &mut self,
        id: &str,
        fresh: &str,
        attached: Option<C>,
        captured_cmdline: Option<Vec<String>>,
        keep_alive: bool,
    )
        requires
            old(self).wf(),
        ensures
            final(self).wf(),
            final(self)@ == checkpointed(
                old(self)@,
                id@,
                fresh@,
                attached,
                commands::texts_option(captured_cmdline),
                keep_alive,
            ),
    {
        let _ = self.take(id);
        self.put(fresh, HandleState { attached, resources: Vec::new(), captured_cmdline });
        let _ = self.started.remove(id);
        assert(self@.started =~= old(self)@.started.remove(id@));
        self.note_started(fresh, keep_alive);
    }

    /// Notes a running sandbox that was found.
    pub fn adopt(&mut self, name: &str)
        requires
            old(self).wf(),
        ensures
            final(self).wf(),
            final(self)@ == adopted(old(self)@, name@),
    {
        if !self.handles.contains(name) {
            assert(!self@.handles.dom().contains(name@));
            self.create(name);
        }
    }

    /// The sandboxes to clean up when the backend closes, each once.
    pub fn close_names(&self) -> (names: Vec<String>)
        requires
            self.wf(),
        ensures
            text::texts(names@).no_duplicates(),
            forall|name: Seq<char>|
                text::texts(names@).contains(name) <==> self@.started.contains(name),
    {
        self.started.keys()
    }

    /// The command line that the last checkpoint of a container captured.
    pub fn last_checkpoint_captured_cmdline(&self, id: &str) -> (cmdline: Option<Vec<String>>)
        requires
            self.wf(),
        ensures
            commands::texts_option(cmdline) == (if self@.handles.dom().contains(id@) {
                self@.handles[id@].captured
            } else {
                None
            }),
    {
        match self.handles.get(id) {
            Some(state) => match &state.captured_cmdline {
                Some(cmdline) => {
                    let copy = cmdline.clone();
                    assert(text::texts(copy@) =~= text::texts(cmdline@));
                    Some(copy)
                },
                None => None,
            },
            None => None,
        }
    }
}

/// A sandbox that outlives its run is never among those to clean up, unless it was before.
pub proof fn law_keep_alive_is_never_cleaned_up<C, R>(
    registry: RegistryView<C, R>,
    id: Seq<char>,
    winner: Seq<char>,
    attached: Option<C>,
    captured: Option<Seq<Seq<char>>>,
)
    ensures
        started_as(registry, id, winner, attached, true).started == registry.started,
        checkpointed(registry, id, winner, attached, captured, true).started.subset_of(
            registry.started,
        ),
{
}

/// After a start the name the container came up under is the one that is cleaned up and
/// the one that has its process; a name it did not come up under has no handle any more.
pub proof fn law_start_covers_the_live_name<C, R>(
    registry: RegistryView<C, R>,
    id: Seq<char>,
    winner: Seq<char>,
    attached: Option<C>,
)
    requires
        registry.handles.dom().contains(id),
    ensures
        ({
            let after = started_as(registry, id, winner, attached, false);
            &&& after.started.contains(winner)
            &&& after.handles.dom().contains(winner) && after.handles[winner].attached == attached
            &&& winner != id ==> !after.handles.dom().contains(id) && after.rekeyed[id] == winner
            &&& winner == id ==> after.rekeyed == registry.rekeyed
        }),
{
}

/// After a checkpoint the fresh name has the place of the old one, among the handles and
/// among the names to clean up.
pub proof fn law_checkpoint_covers_the_fresh_name<C, R>(
    registry: RegistryView<C, R>,
    id: Seq<char>,
    fresh: Seq<char>,
    attached: Option<C>,
    captured: Option<Seq<Seq<char>>>,
)
    requires
        fresh != id,
    ensures
        ({
            let after = checkpointed(registry, id, fresh, attached, captured, false);
            &&& after.started.contains(fresh) && !after.started.contains(id)
            &&& after.handles.dom().contains(fresh) && !after.handles.dom().contains(id)
            &&& after.handles[fresh].attached == attached
            &&& after.handles[fresh].captured == captured
        }),
{
}

/// The other name that a container came up under is told once, and then forgotten; a start
/// under the container's own name adds none to tell.
pub proof fn law_winner_is_told_once<C, R>(
    registry: RegistryView<C, R>,
    id: Seq<char>,
    winner: Seq<char>,
    attached: Option<C>,
    keep_alive: bool,
)
    ensures
        ({
            let after = started_as(registry, id, winner, attached, keep_alive);
            &&& winner != id ==> winner_of(after, id) == Some(winner)
            &&& winner == id ==> winner_of(after, id) == winner_of(registry, id)
            &&& winner_of(winner_told(after, id), id) is None
        }),
{
}

/// Stopping a container leaves nothing attached to it; stopping it again changes nothing.
pub proof fn law_stop_twice_is_stop_once<C, R>(registry: RegistryView<C, R>, id: Seq<char>)
    ensures
        stopped(registry, id).handles.dom().contains(id) ==> {
            let state = stopped(registry, id).handles[id];
            state.attached is None && state.resources.len() == 0
        },
        stopped(stopped(registry, id), id) == stopped(registry, id),
{
    let once = stopped(registry, id);
    if registry.handles.dom().contains(id) {
        assert(stopped(once, id).handles =~= once.handles);
    }
}

/// Finding a running sandbox changes nothing of a sandbox that is known already.
pub proof fn law_adopting_keeps_known_handles<C, R>(
    registry: RegistryView<C, R>,
    name: Seq<char>,
    other: Seq<char>,
)
    requires
        registry.handles.dom().contains(other),
    ensures
        adopted(registry, name).handles.dom().contains(other),
        adopted(registry, name).handles[other] == registry.handles[other],
        adopted(registry, name).started == registry.started,
{
}

/// What a container begins with: no process, no resources, no command line.
pub proof fn law_a_new_handle_has_nothing<C, R>(registry: RegistryView<C, R>, name: Seq<char>)
    ensures
        ({
            let after = created(registry, name);
            &&& after.handles.dom().contains(name)
            &&& after.handles[name].attached is None
            &&& after.handles[name].resources == Seq::<R>::empty()
            &&& after.handles[name].captured is None
            &&& after.started == registry.started
            &&& after.rekeyed == registry.rekeyed
        }),
        !registry.handles.dom().contains(name) ==> adopted(registry, name).handles
            == registry.handles.insert(name, fresh_state()),
        registry.handles.dom().contains(name) ==> adopted(registry, name) == registry,
        adopted(registry, name).handles.dom().contains(name),
        adopted(registry, name).started == registry.started,
        adopted(registry, name).rekeyed == registry.rekeyed,
{
}

/// What is done about one container changes nothing of any other: neither whether it has a
/// handle, nor what is attached to it, nor whether it is cleaned up, nor the name it came up
/// under.
pub proof fn law_other_containers_are_left_alone<C, R>(
    registry: RegistryView<C, R>,
    id: Seq<char>,
    winner: Seq<char>,
    attached: Option<C>,
    captured: Option<Seq<Seq<char>>>,
    keep_alive: bool,
    other: Seq<char>,
)
    requires
        other != id,
        other != winner,
    ensures
        same_of(registry, created(registry, id), other),
        same_of(registry, adopted(registry, id), other),
        same_of(registry, started_as(registry, id, winner, attached, keep_alive), other),
        same_of(registry, winner_told(registry, id), other),
        same_of(registry, stopped(registry, id), other),
        same_of(registry, removed(registry, id), other),
        same_of(
            registry,
            checkpointed(registry, id, winner, attached, captured, keep_alive),
            other,
        ),
{
}

/// Whether two registries know the same of a container.
pub open spec fn same_of<C, R>(
    one: RegistryView<C, R>,
    two: RegistryView<C, R>,
    name: Seq<char>,
) -> bool {
    &&& one.handles.dom().contains(name) <==> two.handles.dom().contains(name)
    &&& one.handles.dom().contains(name) ==> one.handles[name] == two.handles[name]
    &&& one.started.contains(name) <==> two.started.contains(name)
    &&& one.rekeyed.dom().contains(name) <==> two.rekeyed.dom().contains(name)
    &&& one.rekeyed.dom().contains(name) ==> one.rekeyed[name] == two.rekeyed[name]
}

/// A container that starts under its own name keeps its resources and its command line, and one
/// without a handle gets none; one that starts under another name begins with its process alone.
/// It is cleaned up under the name it came up under unless it outlives its run, and what was to
/// be cleaned up before still is.
pub proof fn law_what_a_start_keeps<C, R>(
    registry: RegistryView<C, R>,
    id: Seq<char>,
    winner: Seq<char>,
    attached: Option<C>,
    keep_alive: bool,
)
    ensures
        ({
            let after = started_as(registry, id, id, attached, keep_alive);
            &&& after.handles.dom() == registry.handles.dom()
            &&& registry.handles.dom().contains(id) ==> after.handles[id].attached == attached
                && after.handles[id].resources == registry.handles[id].resources
                && after.handles[id].captured == registry.handles[id].captured
            &&& after.rekeyed == registry.rekeyed
            &&& after.started == (if keep_alive {
                registry.started
            } else {
                registry.started.insert(id)
            })
        }),
        winner != id ==> ({
            let after = started_as(registry, id, winner, attached, keep_alive);
            &&& after.handles.dom() == registry.handles.dom().remove(id).insert(winner)
            &&& after.handles[winner].attached == attached
            &&& after.handles[winner].resources == Seq::<R>::empty()
            &&& after.handles[winner].captured is None
            &&& after.rekeyed == registry.rekeyed.insert(id, winner)
            &&& after.started == (if keep_alive {
                registry.started
            } else {
                registry.started.insert(winner)
            })
        }),
{
    let after = started_as(registry, id, id, attached, keep_alive);
    assert(after.handles.dom() =~= registry.handles.dom());
    if winner != id {
        let after = started_as(registry, id, winner, attached, keep_alive);
        assert(after.handles.dom() =~= registry.handles.dom().remove(id).insert(winner));
    }
}

/// A container that is stopped loses its process and its resources and keeps the rest: its
/// handle, the command line of its last checkpoint, its place among those to clean up.
pub proof fn law_what_a_stop_keeps<C, R>(registry: RegistryView<C, R>, id: Seq<char>)
    ensures
        ({
            let after = stopped(registry, id);
            &&& after.handles.dom() == registry.handles.dom()
            &&& registry.handles.dom().contains(id) ==> after.handles[id].attached is None
                && after.handles[id].resources == Seq::<R>::empty() && after.handles[id].captured
                == registry.handles[id].captured
            &&& after.started == registry.started
            &&& after.rekeyed == registry.rekeyed
        }),
{
    assert(stopped(registry, id).handles.dom() =~= registry.handles.dom());
}

/// A container that was removed has no handle and is not cleaned up any more; the name it came
/// up under is still told. Removing it again changes nothing.
pub proof fn law_nothing_of_a_removed_container_is_left<C, R>(
    registry: RegistryView<C, R>,
    id: Seq<char>,
)
    ensures
        ({
            let after = removed(registry, id);
            &&& !after.handles.dom().contains(id)
            &&& !after.started.contains(id)
            &&& after.rekeyed == registry.rekeyed
            &&& removed(after, id).handles == after.handles
            &&& removed(after, id).started == after.started
        }),
{
    let after = removed(registry, id);
    assert(removed(after, id).handles =~= after.handles);
    assert(removed(after, id).started =~= after.started);
}

/// A container that was booted from its checkpoint has its process and the command line that
/// was captured, and no resources; its old name is neither known nor cleaned up any more, and
/// the fresh one is cleaned up exactly where the container does not outlive its run, or was
/// before.
pub proof fn law_what_a_checkpoint_leaves<C, R>(
    registry: RegistryView<C, R>,
    id: Seq<char>,
    fresh: Seq<char>,
    attached: Option<C>,
    captured: Option<Seq<Seq<char>>>,
    keep_alive: bool,
)
    ensures
        ({
            let after = checkpointed(registry, id, fresh, attached, captured, keep_alive);
            &&& after.handles.dom() == registry.handles.dom().remove(id).insert(fresh)
            &&& after.handles[fresh].attached == attached
            &&& after.handles[fresh].resources == Seq::<R>::empty()
            &&& after.handles[fresh].captured == captured
            &&& fresh != id ==> !after.started.contains(id)
            &&& fresh != id ==> (after.started.contains(fresh) <==> !keep_alive
                || registry.started.contains(fresh))
            &&& after.rekeyed == registry.rekeyed
        }),
{
    let after = checkpointed(registry, id, fresh, attached, captured, keep_alive);
    assert(after.handles.dom() =~= registry.handles.dom().remove(id).insert(fresh));
}

/// The other name of a container is told as it is, where there is one, and telling it changes
/// nothing but that it is not told again.
pub proof fn law_telling_a_winner_changes_nothing_else<C, R>(
    registry: RegistryView<C, R>,
    id: Seq<char>,
)
    ensures
        registry.rekeyed.dom().contains(id) ==> winner_of(registry, id) == Some(
            registry.rekeyed[id],
        ),
        !registry.rekeyed.dom().contains(id) ==> winner_of(registry, id) is None,
        winner_told(registry, id).rekeyed == registry.rekeyed.remove(id),
        winner_told(registry, id).handles == registry.handles,
        winner_told(registry, id).started == registry.started,
{
}

} // verus!
