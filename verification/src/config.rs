//! Assembly of the solver configuration.
//!
//! Pulls every field the solver needs out of the document, parses the
//! sizing strings, derives the root board state from which community
//! cards are given, and packs the lot into one immutable pair of card
//! and tree configurations. The first failing step decides the error of
//! the whole assembly, and the contracts below pin down which step that
//! is.

use crate::decimal::Decimal;
use crate::document::{extract_i32, extract_i32_spec, extract_str, extract_str_spec, extract_float,
    extract_float_spec, DocValue};
use crate::errors::{PipelineError, PipelineErrorSpec, ValidationError};
use crate::sizing::{parse_sizes, parse_sizes_spec, SizingToken};
use vstd::prelude::*;

verus! {

/// How many community cards are revealed at the root of the tree.
#[derive(Clone, Copy, PartialEq, Eq, Structural, Debug)]
pub enum BoardState {
    Flop,
    Turn,
    River,
}

/// The sizing offers at one decision point: one ordered sequence for
/// the initial bet and one for raises; an empty sequence offers
/// nothing of that kind.
#[derive(Clone, PartialEq, Eq, Debug)]
pub struct SizingSpecification {
    pub bet: Vec<SizingToken>,
    pub raise: Vec<SizingToken>,
}

/// The sizing specifications of one street, per position.
#[derive(Clone, PartialEq, Eq, Debug)]
pub struct StreetSizingSet {
    /// Out of position.
    pub oop: SizingSpecification,
    /// In position.
    pub ip: SizingSpecification,
}

/// The two range expressions and the revealed board cards, as written
/// in the document; the external engine interprets the card text.
#[derive(Clone, PartialEq, Eq, Debug)]
pub struct CardConfiguration {
    pub oop_range: String,
    pub ip_range: String,
    pub flop: String,
    /// Empty when the turn is not yet revealed.
    pub turn: String,
    /// Empty when the river is not yet revealed.
    pub river: String,
}

/// The validated, immutable input of the external tree builder.
#[derive(Clone, PartialEq, Eq, Debug)]
pub struct TreeConfiguration {
    pub initial_state: BoardState,
    pub starting_pot: i32,
    pub effective_stack: i32,
    pub rake_rate: Decimal,
    pub rake_cap: Decimal,
    pub flop_sizes: StreetSizingSet,
    pub turn_sizes: StreetSizingSet,
    pub river_sizes: StreetSizingSet,
    /// Absent when the document's turn donk sizing string is empty.
    pub turn_donk_sizes: Option<Vec<SizingToken>>,
    /// Absent when the document's river donk sizing string is empty.
    pub river_donk_sizes: Option<Vec<SizingToken>>,
    pub add_allin_threshold: Decimal,
    pub force_allin_threshold: Decimal,
    pub merging_threshold: Decimal,
}

/// Everything `assemble` produces.
#[derive(Clone, PartialEq, Eq, Debug)]
pub struct AssembledConfig {
    pub cards: CardConfiguration,
    pub tree: TreeConfiguration,
}

/// The run parameters that sit beside the tree configuration in the
/// document: the iteration cap, the target exploitability as a
/// fraction of the pot, and the persistence compression level.
#[derive(Clone, Copy, PartialEq, Eq, Structural, Debug)]
pub struct RunParams {
    pub max_iterations: i32,
    pub target_fraction: Decimal,
    pub compress_level: i32,
}

/// Default shaping threshold: add an all-in option when the remaining
/// stack is at most this multiple of the pot (three halves).
pub open spec fn default_add_allin_threshold() -> Decimal {
    Decimal { negative: false, mantissa: 15, scale: 1 }
}

/// Default shaping threshold: force all-in when the remaining stack
/// after a bet is at most this fraction of the pot (fifteen
/// hundredths).
pub open spec fn default_force_allin_threshold() -> Decimal {
    Decimal { negative: false, mantissa: 15, scale: 2 }
}

/// Default shaping threshold: merge bet sizes closer than this
/// fraction (one tenth).
pub open spec fn default_merging_threshold() -> Decimal {
    Decimal { negative: false, mantissa: 1, scale: 1 }
}

/// Derives the initial board state from the turn and river card
/// strings: both empty is a flop root, a turn alone is a turn root,
/// both given is a river root, and a river without a turn is an
/// illegal progression.
pub fn initial_board_state(turn: &str, river: &str) -> (r: Result<BoardState, ValidationError>)
    ensures
        turn@.len() == 0 && river@.len() == 0 ==> r == Ok::<BoardState, ValidationError>(
            BoardState::Flop,
        ),
        turn@.len() > 0 && river@.len() == 0 ==> r == Ok::<BoardState, ValidationError>(
            BoardState::Turn,
        ),
        turn@.len() > 0 && river@.len() > 0 ==> r == Ok::<BoardState, ValidationError>(
            BoardState::River,
        ),
        turn@.len() == 0 && river@.len() > 0 ==> r == Err::<BoardState, ValidationError>(
            ValidationError::IllegalBoardProgression,
        ),
{
    if !river.is_empty() {
        if turn.is_empty() {
            Err(ValidationError::IllegalBoardProgression)
        } else {
            Ok(BoardState::River)
        }
    } else if !turn.is_empty() {
        Ok(BoardState::Turn)
    } else {
        Ok(BoardState::Flop)
    }
}

/// The document path of a top-level field.
pub open spec fn path1_spec(a: Seq<char>) -> Seq<Seq<char>> {
    seq![a]
}

/// The document path of a field nested one level down.
pub open spec fn path2_spec(a: Seq<char>, b: Seq<char>) -> Seq<Seq<char>> {
    seq![a, b]
}

/// The document path of a field nested two levels down.
pub open spec fn path3_spec(a: Seq<char>, b: Seq<char>, c: Seq<char>) -> Seq<Seq<char>> {
    seq![a, b, c]
}

/// The path of the bet string of the sizing set named `key`.
pub open spec fn bet_path(key: Seq<char>) -> Seq<Seq<char>> {
    path3_spec("tree_config"@, key, "bet"@)
}

/// The path of the raise string of the sizing set named `key`.
pub open spec fn raise_path(key: Seq<char>) -> Seq<Seq<char>> {
    path3_spec("tree_config"@, key, "raise"@)
}

fn path1(a: &str) -> (r: Vec<String>)
    ensures
        r.deep_view() == path1_spec(a@),
{
    let mut v: Vec<String> = Vec::new();
    v.push(a.to_owned());
    proof {
        assert(v.deep_view()[0] == v@[0]@);
        assert(v.deep_view() =~= path1_spec(a@));
    }
    v
}

fn path2(a: &str, b: &str) -> (r: Vec<String>)
    ensures
        r.deep_view() == path2_spec(a@, b@),
{
    let mut v: Vec<String> = Vec::new();
    v.push(a.to_owned());
    v.push(b.to_owned());
    proof {
        assert(v.deep_view()[0] == v@[0]@);
        assert(v.deep_view()[1] == v@[1]@);
        assert(v.deep_view() =~= path2_spec(a@, b@));
    }
    v
}

fn path3(a: &str, b: &str, c: &str) -> (r: Vec<String>)
    ensures
        r.deep_view() == path3_spec(a@, b@, c@),
{
    let mut v: Vec<String> = Vec::new();
    v.push(a.to_owned());
    v.push(b.to_owned());
    v.push(c.to_owned());
    proof {
        assert(v.deep_view()[0] == v@[0]@);
        assert(v.deep_view()[1] == v@[1]@);
        assert(v.deep_view()[2] == v@[2]@);
        assert(v.deep_view() =~= path3_spec(a@, b@, c@));
    }
    v
}

/// The tokens parsed from the string at `p`, assuming both the
/// extraction and the parse succeed.
pub open spec fn parsed_sizes_at(doc: DocValue, p: Seq<Seq<char>>) -> Seq<SizingToken> {
    parse_sizes_spec(extract_str_spec(doc, p)->Ok_0)->Ok_0
}

/// The first failure of the sizing set named `key`: bet extraction,
/// raise extraction, bet parse, raise parse, in that order.
pub open spec fn street_err(doc: DocValue, key: Seq<char>) -> Option<PipelineErrorSpec> {
    match extract_str_spec(doc, bet_path(key)) {
        Err(e) => Some(PipelineErrorSpec::Config(e)),
        Ok(bet_s) => match extract_str_spec(doc, raise_path(key)) {
            Err(e) => Some(PipelineErrorSpec::Config(e)),
            Ok(raise_s) => match parse_sizes_spec(bet_s) {
                Err(g) => Some(PipelineErrorSpec::Grammar(g)),
                Ok(_) => match parse_sizes_spec(raise_s) {
                    Err(g) => Some(PipelineErrorSpec::Grammar(g)),
                    Ok(_) => None,
                },
            },
        },
    }
}

/// Extracts and parses the bet and raise strings of the sizing set
/// named `key` under the tree configuration.
pub fn get_bet_sizes(doc: &DocValue, key: &str) -> (r: Result<SizingSpecification, PipelineError>)
    ensures
        r is Ok <==> street_err(*doc, key@) is None,
        r matches Err(e) ==> street_err(*doc, key@) == Some(e@),
        r matches Ok(sp) ==> sp.bet@ == parsed_sizes_at(*doc, bet_path(key@)) && sp.raise@
            == parsed_sizes_at(*doc, raise_path(key@)),
{
    let bet_s = match extract_str(doc, &path3("tree_config", key, "bet")) {
        Ok(s) => s,
        Err(e) => {
            return Err(PipelineError::Config(e));
        },
    };
    let raise_s = match extract_str(doc, &path3("tree_config", key, "raise")) {
        Ok(s) => s,
        Err(e) => {
            return Err(PipelineError::Config(e));
        },
    };
    let bet = match parse_sizes(bet_s.as_str()) {
        Ok(v) => v,
        Err(g) => {
            return Err(PipelineError::Grammar(g));
        },
    };
    let raise = match parse_sizes(raise_s.as_str()) {
        Ok(v) => v,
        Err(g) => {
            return Err(PipelineError::Grammar(g));
        },
    };
    Ok(SizingSpecification { bet, raise })
}

/// The first failure among the range and board-card fields: the five
/// extractions in document order, then the mandatory non-empty flop,
/// then the board progression.
pub open spec fn cards_err(doc: DocValue) -> Option<PipelineErrorSpec> {
    match extract_str_spec(doc, path1_spec("oop_range"@)) {
        Err(e) => Some(PipelineErrorSpec::Config(e)),
        Ok(_) => match extract_str_spec(doc, path1_spec("ip_range"@)) {
            Err(e) => Some(PipelineErrorSpec::Config(e)),
            Ok(_) => match extract_str_spec(doc, path2_spec("public_card"@, "flop"@)) {
                Err(e) => Some(PipelineErrorSpec::Config(e)),
                Ok(flop) => match extract_str_spec(doc, path2_spec("public_card"@, "turn"@)) {
                    Err(e) => Some(PipelineErrorSpec::Config(e)),
                    Ok(turn) => match extract_str_spec(doc, path2_spec("public_card"@, "river"@)) {
                        Err(e) => Some(PipelineErrorSpec::Config(e)),
                        Ok(river) => if flop.len() == 0 {
                            Some(PipelineErrorSpec::Validation(ValidationError::EmptyFlop))
                        } else if turn.len() == 0 && river.len() > 0 {
                            Some(
                                PipelineErrorSpec::Validation(
                                    ValidationError::IllegalBoardProgression,
                                ),
                            )
                        } else {
                            None
                        },
                    },
                },
            },
        },
    }
}

/// The first failure among the six sizing sets, in street and
/// position order.
pub open spec fn sizes_err(doc: DocValue) -> Option<PipelineErrorSpec> {
    match street_err(doc, "oop_flop_bet_sizes"@) {
        Some(e) => Some(e),
        None => match street_err(doc, "ip_flop_bet_sizes"@) {
            Some(e) => Some(e),
            None => match street_err(doc, "oop_turn_bet_sizes"@) {
                Some(e) => Some(e),
                None => match street_err(doc, "ip_turn_bet_sizes"@) {
                    Some(e) => Some(e),
                    None => match street_err(doc, "oop_river_bet_sizes"@) {
                        Some(e) => Some(e),
                        None => match street_err(doc, "ip_river_bet_sizes"@) {
                            Some(e) => Some(e),
                            None => None,
                        },
                    },
                },
            },
        },
    }
}

/// The first failure among the scalar and donk-sizing fields: pot,
/// stack, rake rate, rake cap, the two donk strings, then the parse of
/// each non-empty donk string.
pub open spec fn scalars_err(doc: DocValue) -> Option<PipelineErrorSpec> {
    match extract_i32_spec(doc, path2_spec("tree_config"@, "starting_pot"@)) {
        Err(e) => Some(PipelineErrorSpec::Config(e)),
        Ok(_) => match extract_i32_spec(doc, path2_spec("tree_config"@, "effective_stack"@)) {
            Err(e) => Some(PipelineErrorSpec::Config(e)),
            Ok(_) => match extract_float_spec(doc, path2_spec("tree_config"@, "rake_rate"@)) {
                Err(e) => Some(PipelineErrorSpec::Config(e)),
                Ok(_) => match extract_float_spec(doc, path2_spec("tree_config"@, "rake_cap"@)) {
                    Err(e) => Some(PipelineErrorSpec::Config(e)),
                    Ok(_) => match extract_str_spec(
                        doc,
                        path2_spec("tree_config"@, "turn_donk_sizes"@),
                    ) {
                        Err(e) => Some(PipelineErrorSpec::Config(e)),
                        Ok(td) => match extract_str_spec(
                            doc,
                            path2_spec("tree_config"@, "river_donk_sizes"@),
                        ) {
                            Err(e) => Some(PipelineErrorSpec::Config(e)),
                            Ok(rd) => if td.len() > 0 && parse_sizes_spec(td) is Err {
                                Some(PipelineErrorSpec::Grammar(parse_sizes_spec(td)->Err_0))
                            } else if rd.len() > 0 && parse_sizes_spec(rd) is Err {
                                Some(PipelineErrorSpec::Grammar(parse_sizes_spec(rd)->Err_0))
                            } else {
                                None
                            },
                        },
                    },
                },
            },
        },
    }
}

/// The first failure of assembly: card fields, then sizing sets, then
/// scalars and donk sizings.
pub open spec fn assemble_err(doc: DocValue) -> Option<PipelineErrorSpec> {
    match cards_err(doc) {
        Some(e) => Some(e),
        None => match sizes_err(doc) {
            Some(e) => Some(e),
            None => scalars_err(doc),
        },
    }
}

/// Every field of a successful assembly, pinned to the document: the
/// card strings as extracted, the board state derived from turn and
/// river, the scalars as extracted, the six sizing sets and the
/// optional donk sizings as parsed, and the default thresholds.
pub open spec fn assemble_ok(doc: DocValue, out: AssembledConfig) -> bool {
    let flop = extract_str_spec(doc, path2_spec("public_card"@, "flop"@))->Ok_0;
    let turn = extract_str_spec(doc, path2_spec("public_card"@, "turn"@))->Ok_0;
    let river = extract_str_spec(doc, path2_spec("public_card"@, "river"@))->Ok_0;
    let td = extract_str_spec(doc, path2_spec("tree_config"@, "turn_donk_sizes"@))->Ok_0;
    let rd = extract_str_spec(doc, path2_spec("tree_config"@, "river_donk_sizes"@))->Ok_0;
    &&& out.cards.oop_range@ == extract_str_spec(doc, path1_spec("oop_range"@))->Ok_0
    &&& out.cards.ip_range@ == extract_str_spec(doc, path1_spec("ip_range"@))->Ok_0
    &&& out.cards.flop@ == flop
    &&& out.cards.turn@ == turn
    &&& out.cards.river@ == river
    &&& out.tree.initial_state == (if river.len() > 0 {
        BoardState::River
    } else if turn.len() > 0 {
        BoardState::Turn
    } else {
        BoardState::Flop
    })
    &&& out.tree.starting_pot == extract_i32_spec(
        doc,
        path2_spec("tree_config"@, "starting_pot"@),
    )->Ok_0
    &&& out.tree.effective_stack == extract_i32_spec(
        doc,
        path2_spec("tree_config"@, "effective_stack"@),
    )->Ok_0
    &&& out.tree.rake_rate == extract_float_spec(doc, path2_spec("tree_config"@, "rake_rate"@))->Ok_0
    &&& out.tree.rake_cap == extract_float_spec(doc, path2_spec("tree_config"@, "rake_cap"@))->Ok_0
    &&& out.tree.flop_sizes.oop.bet@ == parsed_sizes_at(doc, bet_path("oop_flop_bet_sizes"@))
    &&& out.tree.flop_sizes.oop.raise@ == parsed_sizes_at(doc, raise_path("oop_flop_bet_sizes"@))
    &&& out.tree.flop_sizes.ip.bet@ == parsed_sizes_at(doc, bet_path("ip_flop_bet_sizes"@))
    &&& out.tree.flop_sizes.ip.raise@ == parsed_sizes_at(doc, raise_path("ip_flop_bet_sizes"@))
    &&& out.tree.turn_sizes.oop.bet@ == parsed_sizes_at(doc, bet_path("oop_turn_bet_sizes"@))
    &&& out.tree.turn_sizes.oop.raise@ == parsed_sizes_at(doc, raise_path("oop_turn_bet_sizes"@))
    &&& out.tree.turn_sizes.ip.bet@ == parsed_sizes_at(doc, bet_path("ip_turn_bet_sizes"@))
    &&& out.tree.turn_sizes.ip.raise@ == parsed_sizes_at(doc, raise_path("ip_turn_bet_sizes"@))
    &&& out.tree.river_sizes.oop.bet@ == parsed_sizes_at(doc, bet_path("oop_river_bet_sizes"@))
    &&& out.tree.river_sizes.oop.raise@ == parsed_sizes_at(doc, raise_path("oop_river_bet_sizes"@))
    &&& out.tree.river_sizes.ip.bet@ == parsed_sizes_at(doc, bet_path("ip_river_bet_sizes"@))
    &&& out.tree.river_sizes.ip.raise@ == parsed_sizes_at(doc, raise_path("ip_river_bet_sizes"@))
    &&& (td.len() == 0 ==> out.tree.turn_donk_sizes is None)
    &&& (td.len() > 0 ==> (out.tree.turn_donk_sizes matches Some(v) && v@ == parse_sizes_spec(
        td,
    )->Ok_0))
    &&& (rd.len() == 0 ==> out.tree.river_donk_sizes is None)
    &&& (rd.len() > 0 ==> (out.tree.river_donk_sizes matches Some(v) && v@ == parse_sizes_spec(
        rd,
    )->Ok_0))
    &&& out.tree.add_allin_threshold == default_add_allin_threshold()
    &&& out.tree.force_allin_threshold == default_force_allin_threshold()
    &&& out.tree.merging_threshold == default_merging_threshold()
}

/// Assembles the card and tree configurations from the document,
/// fail-fast: the result is `Ok` exactly when no step of `assemble_err`
/// fails, the error is exactly the first failure, and every field of a
/// successful assembly is pinned by `assemble_ok`.
#[verifier::rlimit(60)]
pub fn assemble(doc: &DocValue) -> (r: Result<AssembledConfig, PipelineError>)
    ensures
        r is Ok <==> assemble_err(*doc) is None,
        r matches Err(e) ==> assemble_err(*doc) == Some(e@),
        r matches Ok(out) ==> assemble_ok(*doc, out),
{
    let oop_range = match extract_str(doc, &path1("oop_range")) {
        Ok(s) => s,
        Err(e) => {
            return Err(PipelineError::Config(e));
        },
    };
    let ip_range = match extract_str(doc, &path1("ip_range")) {
        Ok(s) => s,
        Err(e) => {
            return Err(PipelineError::Config(e));
        },
    };
    let flop = match extract_str(doc, &path2("public_card", "flop")) {
        Ok(s) => s,
        Err(e) => {
            return Err(PipelineError::Config(e));
        },
    };
    let turn = match extract_str(doc, &path2("public_card", "turn")) {
        Ok(s) => s,
        Err(e) => {
            return Err(PipelineError::Config(e));
        },
    };
    let river = match extract_str(doc, &path2("public_card", "river")) {
        Ok(s) => s,
        Err(e) => {
            return Err(PipelineError::Config(e));
        },
    };
    if flop.as_str().is_empty() {
        return Err(PipelineError::Validation(ValidationError::EmptyFlop));
    }
    let initial_state = match initial_board_state(turn.as_str(), river.as_str()) {
        Ok(st) => st,
        Err(e) => {
            return Err(PipelineError::Validation(e));
        },
    };
    let flop_oop = match get_bet_sizes(doc, "oop_flop_bet_sizes") {
        Ok(sp) => sp,
        Err(e) => {
            return Err(e);
        },
    };
    let flop_ip = match get_bet_sizes(doc, "ip_flop_bet_sizes") {
        Ok(sp) => sp,
        Err(e) => {
            return Err(e);
        },
    };
    let turn_oop = match get_bet_sizes(doc, "oop_turn_bet_sizes") {
        Ok(sp) => sp,
        Err(e) => {
            return Err(e);
        },
    };
    let turn_ip = match get_bet_sizes(doc, "ip_turn_bet_sizes") {
        Ok(sp) => sp,
        Err(e) => {
            return Err(e);
        },
    };
    let river_oop = match get_bet_sizes(doc, "oop_river_bet_sizes") {
        Ok(sp) => sp,
        Err(e) => {
            return Err(e);
        },
    };
    let river_ip = match get_bet_sizes(doc, "ip_river_bet_sizes") {
        Ok(sp) => sp,
        Err(e) => {
            return Err(e);
        },
    };
    let starting_pot = match extract_i32(doc, &path2("tree_config", "starting_pot")) {
        Ok(i) => i,
        Err(e) => {
            return Err(PipelineError::Config(e));
        },
    };
    let effective_stack = match extract_i32(doc, &path2("tree_config", "effective_stack")) {
        Ok(i) => i,
        Err(e) => {
            return Err(PipelineError::Config(e));
        },
    };
    let rake_rate = match extract_float(doc, &path2("tree_config", "rake_rate")) {
        Ok(d) => d,
        Err(e) => {
            return Err(PipelineError::Config(e));
        },
    };
    let rake_cap = match extract_float(doc, &path2("tree_config", "rake_cap")) {
        Ok(d) => d,
        Err(e) => {
            return Err(PipelineError::Config(e));
        },
    };
    let turn_donk_str = match extract_str(doc, &path2("tree_config", "turn_donk_sizes")) {
        Ok(s) => s,
        Err(e) => {
            return Err(PipelineError::Config(e));
        },
    };
    let river_donk_str = match extract_str(doc, &path2("tree_config", "river_donk_sizes")) {
        Ok(s) => s,
        Err(e) => {
            return Err(PipelineError::Config(e));
        },
    };
    let turn_donk_sizes: Option<Vec<SizingToken>> = if turn_donk_str.as_str().is_empty() {
        None
    } else {
        match parse_sizes(turn_donk_str.as_str()) {
            Ok(v) => Some(v),
            Err(g) => {
                return Err(PipelineError::Grammar(g));
            },
        }
    };
    let river_donk_sizes: Option<Vec<SizingToken>> = if river_donk_str.as_str().is_empty() {
        None
    } else {
        match parse_sizes(river_donk_str.as_str()) {
            Ok(v) => Some(v),
            Err(g) => {
                return Err(PipelineError::Grammar(g));
            },
        }
    };
    let cards = CardConfiguration { oop_range, ip_range, flop, turn, river };
    let tree = TreeConfiguration {
        initial_state,
        starting_pot,
        effective_stack,
        rake_rate,
        rake_cap,
        flop_sizes: StreetSizingSet { oop: flop_oop, ip: flop_ip },
        turn_sizes: StreetSizingSet { oop: turn_oop, ip: turn_ip },
        river_sizes: StreetSizingSet { oop: river_oop, ip: river_ip },
        turn_donk_sizes,
        river_donk_sizes,
        add_allin_threshold: Decimal::positive(15, 1),
        force_allin_threshold: Decimal::positive(15, 2),
        merging_threshold: Decimal::positive(1, 1),
    };
    Ok(AssembledConfig { cards, tree })
}

/// The first failure among the run parameters: the iteration cap, the
/// target-exploitability fraction, then the compression level.
pub open spec fn run_params_err(doc: DocValue) -> Option<PipelineErrorSpec> {
    match extract_i32_spec(doc, path1_spec("max_num_iterations"@)) {
        Err(e) => Some(PipelineErrorSpec::Config(e)),
        Ok(_) => match extract_float_spec(doc, path1_spec("target_exploitability"@)) {
            Err(e) => Some(PipelineErrorSpec::Config(e)),
            Ok(_) => match extract_i32_spec(doc, path1_spec("compress_level"@)) {
                Err(e) => Some(PipelineErrorSpec::Config(e)),
                Ok(_) => None,
            },
        },
    }
}

/// Extracts the run parameters, fail-fast in the order of
/// `run_params_err`.
pub fn extract_run_params(doc: &DocValue) -> (r: Result<RunParams, PipelineError>)
    ensures
        r is Ok <==> run_params_err(*doc) is None,
        r matches Err(e) ==> run_params_err(*doc) == Some(e@),
        r matches Ok(p) ==> {
            &&& p.max_iterations == extract_i32_spec(*doc, path1_spec("max_num_iterations"@))->Ok_0
            &&& p.target_fraction == extract_float_spec(
                *doc,
                path1_spec("target_exploitability"@),
            )->Ok_0
            &&& p.compress_level == extract_i32_spec(*doc, path1_spec("compress_level"@))->Ok_0
        },
{
    let max_iterations = match extract_i32(doc, &path1("max_num_iterations")) {
        Ok(i) => i,
        Err(e) => {
            return Err(PipelineError::Config(e));
        },
    };
    let target_fraction = match extract_float(doc, &path1("target_exploitability")) {
        Ok(d) => d,
        Err(e) => {
            return Err(PipelineError::Config(e));
        },
    };
    let compress_level = match extract_i32(doc, &path1("compress_level")) {
        Ok(i) => i,
        Err(e) => {
            return Err(PipelineError::Config(e));
        },
    };
    Ok(RunParams { max_iterations, target_fraction, compress_level })
}

} // verus!
