//! Decision logic of a stateful diagnostic assistant for distributed-systems
//! incidents: adequacy analysis of user input, card re-ranking, evidence
//! packing, and the checks that turn raw model output into typed results.

pub mod shared_types;
pub mod information_adequacy_analyzer;
pub mod card_branch_reranking;
pub mod context;
pub mod input_normalization;
pub mod json;
pub mod response_shape;
pub mod model;
pub mod llm_structured_generation;
pub mod text;
pub mod prompt_asset;
pub mod observation_boundary_resolver;
pub mod observation_extraction;
pub mod candidate_card_retrieval;
pub mod card_hydration;
pub mod incident_evidence_retrieval;
pub mod chunk_selection;
pub mod context_text;
pub mod prompt_context_assembly;
pub mod diagnostic_update_prompt_context_assembly;
