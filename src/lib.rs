//! An intermediate representation for disassembled machine code.
//!
//! The library models fixed-width values (`Bitvector`, `ByteSize`), storage
//! locations (`Variable`), the expression language over them (`Expression`),
//! and the term graph (`Def`, `Jmp`, `Blk`, `Sub`, `Program`, `Project`) that
//! ties expressions into a control-flow graph addressed by `Tid`s.
//! `Project::verify` checks a whole project and reports every defect found.

mod bitvector;
mod bitwidth;
pub use bitwidth::{lemma_bit_width_round_trip, width_bits};
mod bytesize;
mod error;
mod expression;
mod term;
mod variable;
mod wellformed;

pub use bitvector::{
    abs_of, arith_value, bin_op_spec, bool_bits, cast_spec, compare, lemma_arith_keeps_width, lemma_division_by_zero,
    lemma_unequal_widths_mismatch, lshr_value, rotate_left_value, shift_value, shl_value, subpiece_spec, to_signed, trunc_div, trunc_rem, un_op_spec, wrap,
    BinOpType, Bitvector, CastOpType, UnOpType, MAX_WIDTH,
};
pub use bytesize::{bytes_for_bits, lemma_bit_conversion_round_trip, ByteSize, DatatypeProperties};
pub use error::IrError;
pub use expression::{
    bin_op_value, bin_op_width, cast_value, cast_width, choice_value, choice_width, derefs, env_matches_widths,
    eval_spec, expr_vars, known, lemma_width_agrees_with_evaluation, lookup, lookup_spec, size_width, sizes_agree, MAX_SIZE_BYTES,
    sizes_consistent, subpiece_value, subpiece_width, unknown, var_value, width_spec, Expression, Value,
};
pub use term::{
    enters_sub, find_callee, has_block, has_sub, is_call_target, return_seq, same_tid, successors_spec, Blk, Def, Jmp,
    Program, Project, Sub, Term, Tid,
};
pub use variable::{same_variable, SubRegister, Variable};
pub use wellformed::{
    agree_error, blk_violations, block_target, blocks_violations, def_type_error, def_vars, def_width_error,
    defs_violations, edge, entry_blocks, error_of, expand, fallthrough_ok, has_cbranch, jmp_links, jmp_type_error,
    jmp_vars, jmp_width_error, jmps_violations, lemma_structural_defects_reported, project_violations,
    reach_set, reachable, return_target, structure_violations, sub_violations, subs_violations, target_violations,
    type_violation, unreachable_violations, with_var_sizes, Violation,
};
