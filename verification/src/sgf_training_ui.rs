//! Training the neural network from game records: when training can
//! start, the statistics shown afterwards, which moves of a record become
//! training positions, and the outcome messages of saving and loading a
//! network.
//!
//! File dialogs, reading records and the training itself are done by the
//! application and the neural network crate.
use crate::text::{decimal, decimal_string};
use std::path::PathBuf;
use vstd::prelude::*;
use vstd::string::StringExecFns;

verus! {

#[verifier::external_type_specification]
#[verifier::external_body]
pub struct ExPathBuf(std::path::PathBuf);

/// Training can start once files are chosen and a trainer exists, unless
/// training already runs.
pub fn can_start_training(files_selected: usize, has_trainer: bool, in_progress: bool) -> (r: bool)
    ensures
        r == (files_selected > 0 && has_trainer && !in_progress),
{
    files_selected > 0 && has_trainer && !in_progress
}

/// The number of files chosen.
pub fn files_selected_text(n: usize) -> (s: String)
    ensures
        s@ == decimal(n as nat) + " files selected"@,
{
    let mut s = decimal_string(n as u64);
    s.append(" files selected");
    proof {
        reveal_strlit(" files selected");
    }
    s
}

/// Positions per game, rounded down; zero before any game was trained.
pub fn average_positions(total_positions: usize, games_trained: usize) -> (avg: usize)
    ensures
        avg == if games_trained > 0 {
            total_positions / games_trained
        } else {
            0
        },
{
    if games_trained > 0 {
        total_positions / games_trained
    } else {
        0
    }
}

/// The moves of a record of `total` moves that become training positions
/// when moves `start` to `end` are selected: those from `start` on, before
/// `end` and before the end of the record.
pub open spec fn selected_moves(start: nat, end: nat, total: nat) -> Seq<nat> {
    let stop: nat = if end < total {
        end
    } else {
        total
    };
    if start < stop {
        Seq::new((stop - start) as nat, |k: int| (start + k) as nat)
    } else {
        Seq::empty()
    }
}

/// The moves that become training positions, in order.
pub fn training_moves(start: usize, end: usize, total: usize) -> (v: Vec<usize>)
    ensures
        v@.map_values(|i: usize| i as nat) == selected_moves(start as nat, end as nat, total as nat),
{
    let stop = if end < total {
        end
    } else {
        total
    };
    let mut v: Vec<usize> = Vec::new();
    let mut i: usize = 0;
    while i < stop
        invariant
            0 <= i <= stop,
            stop == (if end < total {
                end
            } else {
                total
            }),
            v@.map_values(|i: usize| i as nat) == (if start < i {
                Seq::new((i - start) as nat, |k: int| (start + k) as nat)
            } else {
                Seq::<nat>::empty()
            }),
        decreases stop - i,
    {
        if i >= start {
            let ghost before = v@.map_values(|i: usize| i as nat);
            v.push(i);
            assert(v@.map_values(|i: usize| i as nat) =~= before.push(i as nat));
        }
        i += 1;
        assert(v@.map_values(|i: usize| i as nat) =~= (if start < i {
            Seq::new((i - start) as nat, |k: int| (start + k) as nat)
        } else {
            Seq::<nat>::empty()
        }));
    }
    v
}

/// Network save and load panel: the files last used and the outcome
/// message, with whether it reports an error.
pub struct NetworkPersistenceUI {
    pub save_path: Option<PathBuf>,
    pub load_path: Option<PathBuf>,
    pub message: Option<(String, bool)>,
}

/// The outcome message of saving (`saving`) or loading a network.
pub open spec fn outcome_message(saving: bool, outcome: Result<(), Seq<char>>) -> (Seq<char>, bool) {
    match outcome {
        Ok(_) => (if saving {
            "Network saved successfully!"@
        } else {
            "Network loaded successfully!"@
        }, false),
        Err(e) => ((if saving {
            "Save failed: "@
        } else {
            "Load failed: "@
        }) + e, true),
    }
}

/// The text of an outcome.
pub open spec fn outcome_text(o: Result<(), String>) -> Result<(), Seq<char>> {
    match o {
        Ok(_) => Ok(()),
        Err(e) => Err(e@),
    }
}

/// The text of a message.
pub open spec fn message_text(m: Option<(String, bool)>) -> Option<(Seq<char>, bool)> {
    match m {
        Some((s, b)) => Some((s@, b)),
        None => None,
    }
}

impl NetworkPersistenceUI {
    /// No file used yet, no message.
    pub fn new() -> (u: Self)
        ensures
            u.save_path is None,
            u.load_path is None,
            u.message is None,
    {
        NetworkPersistenceUI { save_path: None, load_path: None, message: None }
    }

    fn outcome(saving: bool, outcome: Result<(), String>) -> (m: (String, bool))
        ensures
            (m.0@, m.1) == outcome_message(saving, outcome_text(outcome)),
    {
        proof {
            reveal_strlit("Network saved successfully!");
            reveal_strlit("Network loaded successfully!");
            reveal_strlit("Save failed: ");
            reveal_strlit("Load failed: ");
        }
        match outcome {
            Ok(()) => {
                if saving {
                    (String::from_str("Network saved successfully!"), false)
                } else {
                    (String::from_str("Network loaded successfully!"), false)
                }
            },
            Err(e) => {
                let mut s = if saving {
                    String::from_str("Save failed: ")
                } else {
                    String::from_str("Load failed: ")
                };
                s.append(e.as_str());
                (s, true)
            },
        }
    }

    /// A network was to be saved to `path`: with a trainer, its `outcome`
    /// is reported; without one, only the path is kept.
    pub fn record_save(&mut self, path: PathBuf, outcome: Option<Result<(), String>>)
        ensures
            final(self).save_path == Some(path),
            final(self).load_path == old(self).load_path,
            match outcome {
                Some(o) => message_text(final(self).message) == Some(outcome_message(true, outcome_text(o))),
                None => final(self).message == old(self).message,
            },
    {
        self.save_path = Some(path);
        if let Some(o) = outcome {
            self.message = Some(Self::outcome(true, o));
        }
    }

    /// A network was loaded from `path` with `outcome`.
    pub fn record_load(&mut self, path: PathBuf, outcome: Result<(), String>)
        ensures
            final(self).load_path == Some(path),
            final(self).save_path == old(self).save_path,
            message_text(final(self).message) == Some(outcome_message(false, outcome_text(outcome))),
    {
        self.load_path = Some(path);
        self.message = Some(Self::outcome(false, outcome));
    }
}

} // verus!
