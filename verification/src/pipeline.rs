//! The decisions of a generator run, as a state machine: which crates are
//! processed and in which order, what is written for each, and what the run
//! returns. The caller performs each action (running `cargo metadata`,
//! writing a file) and hands back what came of it.

use vstd::prelude::*;
use crate::cli::CliArgs;
use crate::metadata::{joined_one, CrateInfo};
use crate::paths::{is_relative_text, needs_separator, path_join};
use crate::template::{is_rendering_of, pascal_case, render, to_pascal_case};
use crate::text::{chars_of, push_str, string_of, views};

verus! {

/// What the caller is asked to do next.
#[derive(Debug)]
pub enum Action {
    /// List the workspace's crates that have a library target (`--all`).
    ListCrates,
    /// Load the crate of this name, or the root package for `None`.
    Load { crate_name: Option<String> },
    /// Write `contents` to `path`, the output directory joined with
    /// `file_name`.
    Write { file_name: String, path: String, contents: String },
    /// The run is over; these are the paths written, in order.
    Finish { written: Vec<String> },
}

/// What came of the last action.
#[derive(Debug)]
pub enum Event {
    /// The crates that `ListCrates` found.
    Listed(Vec<String>),
    /// The crate that `Load` loaded.
    Loaded(CrateInfo),
    /// The path that `Write` wrote.
    Written(String),
}

/// Where a run stands.
#[derive(Debug, Clone, Copy, PartialEq, Eq, Structural)]
pub enum Stage {
    Listing,
    Loading,
    Writing,
    Done,
}

/// A generator run in progress.
#[derive(Debug)]
pub struct Run {
    selected: Vec<Option<String>>,
    next: usize,
    written: Vec<String>,
    stage: Stage,
    out_dir: String,
}

/// The view of a crate selection.
pub open spec fn selection_view(s: Seq<Option<String>>) -> Seq<Option<Seq<char>>> {
    s.map_values(|o: Option<String>| match o {
        Some(n) => Some(n@),
        None => None,
    })
}

/// The crates a run processes: every listed crate with `--all`, otherwise
/// the crates named with `--crate`, otherwise the root package alone.
pub open spec fn selection_of(all: bool, names: Seq<Seq<char>>, listed: Seq<Seq<char>>) -> Seq<
    Option<Seq<char>>,
> {
    if all {
        listed.map_values(|n: Seq<char>| Some(n))
    } else if names.len() > 0 {
        names.map_values(|n: Seq<char>| Some(n))
    } else {
        seq![None]
    }
}

/// The file name of the find-module of a crate whose PascalCase name is
/// `pascal`.
pub open spec fn module_file_name(pascal: Seq<char>) -> Seq<char> {
    "Find"@ + pascal + ".cmake"@
}

/// Computes the file name of a find-module from the crate's PascalCase name.
pub fn find_module_file_name(crate_name_pascal: &str) -> (res: String)
    ensures
        res@ == module_file_name(crate_name_pascal@),
{
    let mut out: Vec<char> = Vec::new();
    push_str(&mut out, "Find");
    push_str(&mut out, crate_name_pascal);
    push_str(&mut out, ".cmake");
    string_of(&out)
}

/// Copies a list of names into a selection of crates.
fn some_names(names: &Vec<String>) -> (res: Vec<Option<String>>)
    ensures
        selection_view(res@) == views(names@).map_values(|n: Seq<char>| Some(n)),
{
    let mut out: Vec<Option<String>> = Vec::new();
    let mut i: usize = 0;
    while i < names.len()
        invariant
            i <= names@.len(),
            selection_view(out@) == views(names@).take(i as int).map_values(
                |n: Seq<char>| Some(n),
            ),
        decreases names@.len() - i,
    {
        let ghost before = out@;
        out.push(Some(names[i].clone()));
        assert(selection_view(out@) =~= views(names@).take(i + 1).map_values(
            |n: Seq<char>| Some(n),
        )) by {
            assert(selection_view(out@) =~= selection_view(before).push(Some(names@[i as int]@)));
        }
        i = i + 1;
    }
    assert(views(names@).take(names@.len() as int) =~= views(names@));
    out
}

impl Run {
    /// The crates this run processes, in order.
    pub closed spec fn selected(self) -> Seq<Option<Seq<char>>> {
        selection_view(self.selected@)
    }

    /// How many crates have been written.
    pub closed spec fn count(self) -> nat {
        self.next as nat
    }

    /// The paths written so far, in order.
    pub closed spec fn written(self) -> Seq<Seq<char>> {
        views(self.written@)
    }

    /// The directory the find-modules are written to.
    pub closed spec fn out_dir(self) -> Seq<char> {
        self.out_dir@
    }

    /// Where the run stands.
    pub closed spec fn stage(self) -> Stage {
        self.stage
    }

    /// The run's invariant: one path per crate written, and no more crates
    /// written than selected; listing happens before anything is selected.
    pub closed spec fn wf(self) -> bool {
        &&& self.written@.len() == self.next
        &&& self.next <= self.selected@.len()
        &&& self.stage == Stage::Listing ==> self.selected@.len() == 0 && self.next == 0
        &&& self.stage == Stage::Loading ==> self.next < self.selected@.len()
        &&& self.stage == Stage::Writing ==> self.next < self.selected@.len()
        &&& self.stage == Stage::Done ==> self.next == self.selected@.len()
    }

    /// Whether `ev` answers the action this run last asked for.
    pub open spec fn accepts(self, ev: Event) -> bool {
        match ev {
            Event::Listed(_) => self.stage() == Stage::Listing,
            Event::Loaded(_) => self.stage() == Stage::Loading,
            Event::Written(_) => self.stage() == Stage::Writing,
        }
    }

    /// Whether `ev` answers the action this run last asked for.
    pub fn accepts_event(&self, ev: &Event) -> (res: bool)
        ensures
            res == self.accepts(*ev),
    {
        match ev {
            Event::Listed(_) => self.stage == Stage::Listing,
            Event::Loaded(_) => self.stage == Stage::Loading,
            Event::Written(_) => self.stage == Stage::Writing,
        }
    }

    /// The action that follows once the crates before index `next` are
    /// written: load the next crate, or finish with the paths written.
    pub open spec fn follow_up(self, action: Action) -> bool {
        if self.count() < self.selected().len() {
            &&& self.stage() == Stage::Loading
            &&& action matches Action::Load { crate_name } && selection_view(seq![crate_name])[0]
                == self.selected()[self.count() as int]
        } else {
            &&& self.stage() == Stage::Done
            &&& action matches Action::Finish { written } && views(written@) == self.written()
        }
    }

    /// A finished run has written one find-module for every crate it
    /// selected, and returns the paths written, in the order written.
    pub proof fn lemma_finish_covers_selection(self, action: Action)
        requires
            self.wf(),
            self.follow_up(action),
            action is Finish,
        ensures
            self.stage() == Stage::Done,
            self.written().len() == self.selected().len(),
            views(action->written@) == self.written(),
    {
    }

    /// Asks for the next crate, or finishes.
    fn advance(&mut self) -> (action: Action)
        requires
            old(self).written@.len() == old(self).next,
            old(self).next <= old(self).selected@.len(),
        ensures
            final(self).wf(),
            final(self).selected() == old(self).selected(),
            final(self).count() == old(self).count(),
            final(self).written() == old(self).written(),
            final(self).out_dir() == old(self).out_dir(),
            final(self).follow_up(action),
    {
        if self.next < self.selected.len() {
            self.stage = Stage::Loading;
            let crate_name = match &self.selected[self.next] {
                Some(n) => Some(n.clone()),
                None => None,
            };
            assert(selection_view(seq![crate_name])[0] == selection_view(self.selected@)[self.next as int]);
            Action::Load { crate_name }
        } else {
            self.stage = Stage::Done;
            let written = self.written.clone();
            assert(views(written@) =~= views(self.written@)) by {
                assert forall|k: int| 0 <= k < written@.len() implies written@[k]@
                    == self.written@[k]@ by {
                    assert(cloned::<String>(self.written@[k], written@[k]));
                }
            }
            Action::Finish { written }
        }
    }

    /// Starts a run for the parsed command line: with `--all` it first asks
    /// for the crates to process; otherwise it processes the named crates,
    /// or the root package when none is named.
    pub fn start(args: &CliArgs) -> (res: (Run, Action))
        ensures
            res.0.wf(),
            res.0.count() == 0,
            res.0.written().len() == 0,
            res.0.out_dir() == args.out_dir@,
            args.all ==> res.0.stage() == Stage::Listing && res.1 is ListCrates,
            !args.all ==> res.0.selected() == selection_of(false, views(args.crate_names@), seq![])
                && res.0.follow_up(res.1),
    {
        if args.all {
            let run = Run {
                selected: Vec::new(),
                next: 0,
                written: Vec::new(),
                stage: Stage::Listing,
                out_dir: args.out_dir.clone(),
            };
            (run, Action::ListCrates)
        } else {
            let selected = if args.crate_names.len() > 0 {
                some_names(&args.crate_names)
            } else {
                let mut v: Vec<Option<String>> = Vec::new();
                v.push(None);
                assert(selection_view(v@) =~= seq![None]);
                v
            };
            let mut run = Run {
                selected,
                next: 0,
                written: Vec::new(),
                stage: Stage::Loading,
                out_dir: args.out_dir.clone(),
            };
            let action = run.advance();
            (run, action)
        }
    }

    /// Takes in what came of the last action and says what to do next.
    /// After the listing, the listed crates are processed in order. A loaded
    /// crate is answered by writing its rendered find-module under the name
    /// `Find<PascalName>.cmake`. A written path is recorded, and the next
    /// crate is loaded, or the run finishes with every path written.
    pub fn step(&mut self, ev: Event) -> (action: Action)
        requires
            old(self).wf(),
            old(self).accepts(ev),
        ensures
            final(self).wf(),
            final(self).out_dir() == old(self).out_dir(),
            match ev {
                Event::Listed(names) => {
                    &&& final(self).selected() == selection_of(true, seq![], views(names@))
                    &&& final(self).count() == 0
                    &&& final(self).written() == old(self).written()
                    &&& final(self).follow_up(action)
                },
                Event::Loaded(info) => {
                    &&& final(self).stage() == Stage::Writing
                    &&& final(self).selected() == old(self).selected()
                    &&& final(self).count() == old(self).count()
                    &&& final(self).written() == old(self).written()
                    &&& action matches Action::Write { file_name, path, contents }
                    &&& file_name@ == module_file_name(pascal_case(info.name@))
                    &&& joined_one(path@, old(self).out_dir(), file_name@)
                    &&& is_relative_text(file_name@) && needs_separator(old(self).out_dir()) ==> (
                    path@ == old(self).out_dir() + seq!['/'] + file_name@ || path@ == old(
                        self,
                    ).out_dir() + seq!['\\'] + file_name@)
                    &&& is_rendering_of(info, contents@)
                },
                Event::Written(path) => {
                    &&& final(self).selected() == old(self).selected()
                    &&& final(self).count() == old(self).count() + 1
                    &&& final(self).follow_up(action)
                    &&& final(self).written() == old(self).written().push(path@)
                },
            },
    {
        match ev {
            Event::Listed(names) => {
                let selected = some_names(&names);
                assert(selection_view(selected@) =~= selection_of(true, seq![], views(names@)));
                self.selected = selected;
                self.next = 0;
                self.advance()
            },
            Event::Loaded(info) => {
                self.stage = Stage::Writing;
                let pascal = to_pascal_case(info.name.as_str());
                let file_name = find_module_file_name(pascal.as_str());
                let contents = render(&info);
                let path = path_join(self.out_dir.as_str(), file_name.as_str());
                Action::Write { file_name, path, contents }
            },
            Event::Written(path) => {
                let ghost before = self.written@;
                assert(self.next < self.selected.len());
                self.written.push(path);
                assert(views(self.written@) =~= views(before).push(path@));
                self.next = self.next + 1;
                self.advance()
            },
        }
    }
}

} // verus!
