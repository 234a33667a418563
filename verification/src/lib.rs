//! Durable metadata records of a NoKV workspace shard: their byte formats, the
//! recovery log that carries them, and the rules of object-first publication.

pub mod be;
pub mod change_events;
pub mod command;
pub mod digest;
pub mod ids;
pub mod index_keys;
pub mod messages;
pub mod prose;
pub mod publication_acceptance_laws;
pub mod publication_admission_laws;
pub mod publication_authority;
pub mod publication_authority_laws;
pub mod publication_batches;
pub mod publication_claim_laws;
pub mod publication_commit_laws;
pub mod publication_commit_stage;
pub mod publication_digests;
pub mod publication_digest_laws;
pub mod publication_effect_laws;
pub mod publication_error;
pub mod publication_finalize;
pub mod publication_index_stage;
pub mod publication_input_laws;
pub mod publication_laws;
pub mod publication_ledger_laws;
pub mod publication_lifecycle;
pub mod publication_lifecycle_laws;
pub mod publication_manifest;
pub mod publication_outcome_laws;
pub mod publication_owners;
pub mod publication_plan;
pub mod publication_record_laws;
pub mod publication_records;
pub mod publication_refusal_laws;
pub mod publication_replay;
pub mod publication_rule_laws;
pub mod publication_rules;
pub mod publication_step_laws;
pub mod publication_store;
pub mod publication_store_laws;
pub mod publication_sweeps;
pub mod publish_records;
pub mod query_records;
pub mod recovery;
pub mod recovery_format_laws;
pub mod recovery_laws;
pub mod recovery_mutation;
pub mod recovery_mutation_laws;
pub mod recovery_segment;
pub mod recovery_storage;
pub mod storage_limit_laws;
pub mod stored_format_laws;
pub mod text;
pub mod wire;

