//! The neural network configuration questionnaire: what each answer means
//! and how it affects the two networks.
//!
//! The questions themselves, the wizard that records the answers and the
//! drawing of the panel belong to the neural network crate and the
//! application.
use crate::text::{decimal, push_decimal};
use vstd::prelude::*;
use vstd::string::StringExecFns;

verus! {

/// The heading of question `q` (counted from zero) of the ten.
pub open spec fn question_heading_text(q: nat) -> Seq<char> {
    "Question "@ + decimal(q + 1) + " of 10"@
}

/// The heading of question `q` (counted from zero) of the ten.
pub fn question_heading(q: u64) -> (s: String)
    requires
        q < u64::MAX,
    ensures
        s@ == question_heading_text(q as nat),
{
    let mut s = String::from_str("Question ");
    push_decimal(&mut s, q + 1);
    s.append(" of 10");
    proof {
        reveal_strlit("Question ");
        reveal_strlit(" of 10");
    }
    s
}

/// The trait question `q` asks about.
pub open spec fn trait_name(q: nat) -> Seq<char> {
    if q == 0 {
        "Aggression"@
    } else if q == 1 {
        "Territory"@
    } else if q == 2 {
        "Fighting"@
    } else if q == 3 {
        "Patterns"@
    } else if q == 4 {
        "Risk"@
    } else if q == 5 {
        "Opening"@
    } else if q == 6 {
        "Middle game"@
    } else if q == 7 {
        "Endgame"@
    } else if q == 8 {
        "Learning"@
    } else {
        "Creativity"@
    }
}

/// What an answer of `q` does to the networks, after the trait and the
/// value; `high` says whether the answer is above 6.
pub open spec fn impact_clause(q: nat, high: bool) -> Seq<char> {
    if q == 0 {
        "Policy net will suggest "@ + (if high {
            "more"@
        } else {
            "fewer"@
        }) + " attacking moves, Value net will "@ + (if high {
            "favor"@
        } else {
            "avoid"@
        }) + " fighting positions"@
    } else if q == 1 {
        "Networks will "@ + (if high {
            "prioritize"@
        } else {
            "devalue"@
        }) + " solid territory over influence"@
    } else if q == 2 {
        "Networks will "@ + (if high {
            "seek out"@
        } else {
            "simplify"@
        }) + " complex tactical situations"@
    } else if q == 3 {
        (if high {
            "More reliance"@
        } else {
            "Less reliance"@
        }) + " on learned shapes vs deep calculation"@
    } else if q == 4 {
        "Networks will "@ + (if high {
            "embrace"@
        } else {
            "avoid"@
        }) + " uncertain positions"@
    } else if q == 5 {
        "Early game will be "@ + if high {
            "aggressive and fast"@
        } else {
            "solid and careful"@
        }
    } else if q == 6 {
        "Networks "@ + (if high {
            "excel"@
        } else {
            "struggle"@
        }) + " at complex middle game"@
    } else if q == 7 {
        "Networks "@ + (if high {
            "very precise"@
        } else {
            "approximate"@
        }) + " in endgame counting"@
    } else if q == 8 {
        "Networks will adapt "@ + (if high {
            "quickly"@
        } else {
            "slowly"@
        }) + " from training"@
    } else {
        "Networks will suggest "@ + (if high {
            "unconventional"@
        } else {
            "standard"@
        }) + " moves"@
    }
}

/// The impact line of answer `value` to question `q`; empty past the
/// tenth question.
pub open spec fn impact_text(q: nat, value: u8) -> Seq<char> {
    if q < 10 {
        trait_name(q) + " "@ + decimal(value as nat) + ": "@ + impact_clause(q, value > 6)
    } else {
        Seq::empty()
    }
}

fn trait_name_str(q: usize) -> (s: &'static str)
    requires
        q < 10,
    ensures
        s@ == trait_name(q as nat),
{
    proof {
        reveal_strlit("Aggression");
        reveal_strlit("Territory");
        reveal_strlit("Fighting");
        reveal_strlit("Patterns");
        reveal_strlit("Risk");
        reveal_strlit("Opening");
        reveal_strlit("Middle game");
        reveal_strlit("Endgame");
        reveal_strlit("Learning");
        reveal_strlit("Creativity");
    }
    if q == 0 {
        "Aggression"
    } else if q == 1 {
        "Territory"
    } else if q == 2 {
        "Fighting"
    } else if q == 3 {
        "Patterns"
    } else if q == 4 {
        "Risk"
    } else if q == 5 {
        "Opening"
    } else if q == 6 {
        "Middle game"
    } else if q == 7 {
        "Endgame"
    } else if q == 8 {
        "Learning"
    } else {
        "Creativity"
    }
}

fn pick(high: bool, a: &'static str, b: &'static str) -> (s: &'static str)
    ensures
        s@ == if high {
            a@
        } else {
            b@
        },
{
    if high {
        a
    } else {
        b
    }
}

fn impact_clause_string(q: usize, high: bool) -> (s: String)
    requires
        q < 10,
    ensures
        s@ == impact_clause(q as nat, high),
{
    proof {
        reveal_strlit("Policy net will suggest ");
        reveal_strlit("more");
        reveal_strlit("fewer");
        reveal_strlit(" attacking moves, Value net will ");
        reveal_strlit("favor");
        reveal_strlit("avoid");
        reveal_strlit(" fighting positions");
        reveal_strlit("Networks will ");
        reveal_strlit("prioritize");
        reveal_strlit("devalue");
        reveal_strlit(" solid territory over influence");
        reveal_strlit("seek out");
        reveal_strlit("simplify");
        reveal_strlit(" complex tactical situations");
        reveal_strlit("More reliance");
        reveal_strlit("Less reliance");
        reveal_strlit(" on learned shapes vs deep calculation");
        reveal_strlit("embrace");
        reveal_strlit(" uncertain positions");
        reveal_strlit("Early game will be ");
        reveal_strlit("aggressive and fast");
        reveal_strlit("solid and careful");
        reveal_strlit("Networks ");
        reveal_strlit("excel");
        reveal_strlit("struggle");
        reveal_strlit(" at complex middle game");
        reveal_strlit("very precise");
        reveal_strlit("approximate");
        reveal_strlit(" in endgame counting");
        reveal_strlit("Networks will adapt ");
        reveal_strlit("quickly");
        reveal_strlit("slowly");
        reveal_strlit(" from training");
        reveal_strlit("Networks will suggest ");
        reveal_strlit("unconventional");
        reveal_strlit("standard");
        reveal_strlit(" moves");
    }
    if q == 0 {
        let mut s = String::from_str("Policy net will suggest ");
        s.append(pick(high, "more", "fewer"));
        s.append(" attacking moves, Value net will ");
        s.append(pick(high, "favor", "avoid"));
        s.append(" fighting positions");
        s
    } else if q == 1 {
        let mut s = String::from_str("Networks will ");
        s.append(pick(high, "prioritize", "devalue"));
        s.append(" solid territory over influence");
        s
    } else if q == 2 {
        let mut s = String::from_str("Networks will ");
        s.append(pick(high, "seek out", "simplify"));
        s.append(" complex tactical situations");
        s
    } else if q == 3 {
        let mut s = String::from_str(pick(high, "More reliance", "Less reliance"));
        s.append(" on learned shapes vs deep calculation");
        s
    } else if q == 4 {
        let mut s = String::from_str("Networks will ");
        s.append(pick(high, "embrace", "avoid"));
        s.append(" uncertain positions");
        s
    } else if q == 5 {
        let mut s = String::from_str("Early game will be ");
        s.append(pick(high, "aggressive and fast", "solid and careful"));
        s
    } else if q == 6 {
        let mut s = String::from_str("Networks ");
        s.append(pick(high, "excel", "struggle"));
        s.append(" at complex middle game");
        s
    } else if q == 7 {
        let mut s = String::from_str("Networks ");
        s.append(pick(high, "very precise", "approximate"));
        s.append(" in endgame counting");
        s
    } else if q == 8 {
        let mut s = String::from_str("Networks will adapt ");
        s.append(pick(high, "quickly", "slowly"));
        s.append(" from training");
        s
    } else {
        let mut s = String::from_str("Networks will suggest ");
        s.append(pick(high, "unconventional", "standard"));
        s.append(" moves");
        s
    }
}

/// How answer `value` to question `q` affects the two networks.
pub fn neural_impact(q: usize, value: u8) -> (s: String)
    ensures
        s@ == impact_text(q as nat, value),
{
    if q >= 10 {
        return String::new();
    }
    let mut s = String::from_str(trait_name_str(q));
    s.append(" ");
    push_decimal(&mut s, value as u64);
    s.append(": ");
    let c = impact_clause_string(q, value > 6);
    s.append(c.as_str());
    proof {
        reveal_strlit(" ");
        reveal_strlit(": ");
    }
    s
}

/// What answer `value` to one of the first five questions means; empty
/// for the others and outside 1 to 10.
pub open spec fn meaning_text(q: nat, value: u8) -> Seq<char> {
    let band: int = if 1 <= value <= 3 {
        0
    } else if 4 <= value <= 6 {
        1
    } else if 7 <= value <= 8 {
        2
    } else if 9 <= value <= 10 {
        3
    } else {
        4
    };
    if band == 4 || q > 4 {
        Seq::empty()
    } else if q == 0 {
        if band == 0 {
            "Very defensive - Focus on solid territory"@
        } else if band == 1 {
            "Balanced - Mix of territory and fighting"@
        } else if band == 2 {
            "Aggressive - Actively seek fights"@
        } else {
            "Very aggressive - Constant pressure"@
        }
    } else if q == 1 {
        if band == 0 {
            "Fighting focused - Influence over territory"@
        } else if band == 1 {
            "Balanced approach"@
        } else if band == 2 {
            "Territory focused - Secure points"@
        } else {
            "Very territorial - Maximum efficiency"@
        }
    } else if q == 2 {
        if band == 0 {
            "Peaceful - Avoid complications"@
        } else if band == 1 {
            "Normal - Fight when necessary"@
        } else if band == 2 {
            "Combative - Enjoy tactical battles"@
        } else {
            "Warrior - Seek every fight"@
        }
    } else if q == 3 {
        if band == 0 {
            "Calculate everything deeply"@
        } else if band == 1 {
            "Mix patterns and calculation"@
        } else if band == 2 {
            "Trust learned patterns"@
        } else {
            "Intuitive pattern-based play"@
        }
    } else {
        if band == 0 {
            "Very safe - Minimize uncertainty"@
        } else if band == 1 {
            "Moderate risk when justified"@
        } else if band == 2 {
            "Accept risks for gains"@
        } else {
            "High risk, high reward"@
        }
    }
}

/// What answer `value` to question `q` means.
pub fn answer_meaning(q: usize, value: u8) -> (s: &'static str)
    ensures
        s@ == meaning_text(q as nat, value),
{
    proof {
        reveal_strlit("");
        reveal_strlit("Very defensive - Focus on solid territory");
        reveal_strlit("Balanced - Mix of territory and fighting");
        reveal_strlit("Aggressive - Actively seek fights");
        reveal_strlit("Very aggressive - Constant pressure");
        reveal_strlit("Fighting focused - Influence over territory");
        reveal_strlit("Balanced approach");
        reveal_strlit("Territory focused - Secure points");
        reveal_strlit("Very territorial - Maximum efficiency");
        reveal_strlit("Peaceful - Avoid complications");
        reveal_strlit("Normal - Fight when necessary");
        reveal_strlit("Combative - Enjoy tactical battles");
        reveal_strlit("Warrior - Seek every fight");
        reveal_strlit("Calculate everything deeply");
        reveal_strlit("Mix patterns and calculation");
        reveal_strlit("Trust learned patterns");
        reveal_strlit("Intuitive pattern-based play");
        reveal_strlit("Very safe - Minimize uncertainty");
        reveal_strlit("Moderate risk when justified");
        reveal_strlit("Accept risks for gains");
        reveal_strlit("High risk, high reward");
    }
    let band: u8 = if 1 <= value && value <= 3 {
        0
    } else if 4 <= value && value <= 6 {
        1
    } else if 7 <= value && value <= 8 {
        2
    } else if 9 <= value && value <= 10 {
        3
    } else {
        4
    };
    if band == 4 || q > 4 {
        ""
    } else if q == 0 {
        if band == 0 {
            "Very defensive - Focus on solid territory"
        } else if band == 1 {
            "Balanced - Mix of territory and fighting"
        } else if band == 2 {
            "Aggressive - Actively seek fights"
        } else {
            "Very aggressive - Constant pressure"
        }
    } else if q == 1 {
        if band == 0 {
            "Fighting focused - Influence over territory"
        } else if band == 1 {
            "Balanced approach"
        } else if band == 2 {
            "Territory focused - Secure points"
        } else {
            "Very territorial - Maximum efficiency"
        }
    } else if q == 2 {
        if band == 0 {
            "Peaceful - Avoid complications"
        } else if band == 1 {
            "Normal - Fight when necessary"
        } else if band == 2 {
            "Combative - Enjoy tactical battles"
        } else {
            "Warrior - Seek every fight"
        }
    } else if q == 3 {
        if band == 0 {
            "Calculate everything deeply"
        } else if band == 1 {
            "Mix patterns and calculation"
        } else if band == 2 {
            "Trust learned patterns"
        } else {
            "Intuitive pattern-based play"
        }
    } else {
        if band == 0 {
            "Very safe - Minimize uncertainty"
        } else if band == 1 {
            "Moderate risk when justified"
        } else if band == 2 {
            "Accept risks for gains"
        } else {
            "High risk, high reward"
        }
    }
}

/// The explanation panel on how the neural networks work.
pub struct NeuralExplanationPanel;

} // verus!
