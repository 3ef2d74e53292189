//! A small kernel for second-quantized operator algebra on many-fermion
//! states: Slater determinants encoded as bit patterns, elementary
//! creation/annihilation operators with exact fermionic phase tracking,
//! and the machinery that threads products of elementary operators
//! through determinants.

mod determinant;
mod engine;

pub use determinant::AC;
pub use determinant::Slater;
pub use determinant::ac_pos;
pub use determinant::count_below;
pub use determinant::elem_result;
pub use determinant::lemma_null_result;
pub use determinant::occ;
pub use determinant::result_model;
pub use determinant::sign_below;
pub use engine::Contribution;
pub use engine::contribution_matches;
pub use engine::contributions;
pub use engine::lemma_create_annihilate_cancel;
pub use engine::lemma_identity_term;
pub use engine::term_result;
pub use engine::term_wf;
