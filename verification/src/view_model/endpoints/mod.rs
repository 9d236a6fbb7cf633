//! The endpoint table: every finding of one internet-facing entry in a row, and what stands behind
//! it. Advice is given for a breach only.

pub mod advice;
pub mod attention;
pub mod evidence;
pub mod picture_laws;
pub mod reach;
pub mod row_laws;
pub mod table;
pub mod wording_laws;
pub mod words;
