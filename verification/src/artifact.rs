//! One whole run of generation: the shape is read from the proof, the
//! two files of the verifier are generated, and the proof is written out
//! for the circuit backend. A run that fails leaves nothing behind.

use vstd::prelude::*;
use crate::canonical::canonical;
use crate::circom_proof::{
    circom_text, try_generate_proof_base64, CircomText, LayoutError, ProofForCircom,
};
use crate::circuit::{CommonData, FieldParameters, VerifierOnlyData};
use crate::data::ProofWithPublicInputs;
use crate::generator::{generate_circom_verifier, generated, GeneratorError};
use crate::layout::{closed_form_size, fits};
use crate::shape::{shape_of, try_generate_verifier_config, ShapeError, VerifierConfig};

verus! {

/// How far a run of generation has come.
#[derive(Clone, Copy, Debug, PartialEq, Eq, Structural)]
pub enum GenerationStage {
    /// Nothing is generated yet.
    Init,
    /// The placeholders of the constants are filled in.
    ConstantsSubstituted,
    /// The code of the gates is emitted.
    GatesEmitted,
    /// The layout of the proof is computed and checked.
    ProofLayoutComputed,
    /// All is generated.
    Finalized,
}

/// Why a run of generation failed.
#[derive(Clone, Copy, Debug, PartialEq, Eq, Structural)]
pub enum GenerationError {
    /// The proof has no shape.
    Shape(ShapeError),
    /// The files of the verifier could not be generated.
    Generator(GeneratorError),
    /// The proof could not be written out.
    Layout(LayoutError),
}

/// What a run of generation hands out.
#[derive(Clone, Debug, PartialEq, Eq)]
pub struct GeneratedArtifact {
    pub config: VerifierConfig,
    pub constants: String,
    pub gates: String,
    pub proof: ProofForCircom,
}

/// The content of a generated artifact.
pub struct ArtifactText {
    pub config: VerifierConfig,
    pub constants: Seq<char>,
    pub gates: Seq<char>,
    pub proof: CircomText,
}

impl View for GeneratedArtifact {
    type V = ArtifactText;

    open spec fn view(&self) -> ArtifactText {
        ArtifactText {
            config: self.config,
            constants: self.constants@,
            gates: self.gates@,
            proof: self.proof@,
        }
    }
}

/// The stage that a run had reached when it failed with the given error.
pub open spec fn stage_reached(e: GenerationError) -> GenerationStage {
    match e {
        GenerationError::Shape(_) => GenerationStage::Init,
        GenerationError::Generator(g) => match g {
            GeneratorError::ExtensionRootMissing => GenerationStage::Init,
            GeneratorError::NotPowerOfTwo => GenerationStage::Init,
            GeneratorError::RootMissing => GenerationStage::Init,
            GeneratorError::SelectorMissing { .. } => GenerationStage::ConstantsSubstituted,
            GeneratorError::GateNotImplemented { .. } => GenerationStage::ConstantsSubstituted,
            GeneratorError::MalformedGateCode { .. } => GenerationStage::ConstantsSubstituted,
            GeneratorError::SigmaCapCount => GenerationStage::GatesEmitted,
            GeneratorError::SigmaCapTooShort => GenerationStage::GatesEmitted,
        },
        GenerationError::Layout(_) => GenerationStage::GatesEmitted,
    }
}

/// The place of a stage in a run.
pub open spec fn stage_order(s: GenerationStage) -> nat {
    match s {
        GenerationStage::Init => 0,
        GenerationStage::ConstantsSubstituted => 1,
        GenerationStage::GatesEmitted => 2,
        GenerationStage::ProofLayoutComputed => 3,
        GenerationStage::Finalized => 4,
    }
}

/// What a run of generation hands out, or why it fails: the shape is read
/// first, then the files of the verifier are generated, then the proof is
/// written out, after it is found canonical and of the size that its
/// shape predicts.
pub open spec fn artifact_of(
    p: ProofWithPublicInputs,
    common: CommonData,
    vo: VerifierOnlyData,
    field: FieldParameters,
    constants_template: Seq<char>,
    gates_template: Seq<char>,
    serialized_len: usize,
) -> Result<ArtifactText, GenerationError> {
    match shape_of(p) {
        Err(e) => Err(GenerationError::Shape(e)),
        Ok(c) => match generated(c, common, vo, field, constants_template, gates_template) {
            Err(e) => Err(GenerationError::Generator(e)),
            Ok(texts) => if !canonical(p) {
                Err(GenerationError::Layout(LayoutError::NonCanonical))
            } else if !fits(p, c) {
                Err(GenerationError::Layout(LayoutError::ShapeMismatch))
            } else if closed_form_size(c) != serialized_len {
                Err(GenerationError::Layout(LayoutError::SizeMismatch))
            } else {
                Ok(
                    ArtifactText {
                        config: c,
                        constants: texts.0,
                        gates: texts.1,
                        proof: circom_text(p, c),
                    },
                )
            },
        },
    }
}

impl GenerationError {
    /// The stage that the run had reached when it failed.
    pub fn stage(&self) -> (s: GenerationStage)
        ensures
            s == stage_reached(*self),
            stage_order(s) < stage_order(GenerationStage::ProofLayoutComputed),
    {
        match self {
            GenerationError::Shape(_) => GenerationStage::Init,
            GenerationError::Generator(g) => match g {
                GeneratorError::ExtensionRootMissing => GenerationStage::Init,
                GeneratorError::NotPowerOfTwo => GenerationStage::Init,
                GeneratorError::RootMissing => GenerationStage::Init,
                GeneratorError::SelectorMissing { .. } => GenerationStage::ConstantsSubstituted,
                GeneratorError::GateNotImplemented { .. } => GenerationStage::ConstantsSubstituted,
                GeneratorError::MalformedGateCode { .. } => GenerationStage::ConstantsSubstituted,
                GeneratorError::SigmaCapCount => GenerationStage::GatesEmitted,
                GeneratorError::SigmaCapTooShort => GenerationStage::GatesEmitted,
            },
            GenerationError::Layout(_) => GenerationStage::GatesEmitted,
        }
    }
}

/// Runs generation for one proof and its circuit. `serialized_len` is
/// the number of bytes of the proof in its serialized form. The run
/// either hands out all of the artifact or fails with the first error;
/// nothing is handed out in part.
pub fn generate_artifact(
    pwpi: &ProofWithPublicInputs,
    common: &CommonData,
    verifier_only: &VerifierOnlyData,
    field: &FieldParameters,
    constants_template: &str,
    gates_template: &str,
    serialized_len: usize,
) -> (res: Result<GeneratedArtifact, GenerationError>)
    ensures
        match artifact_of(
            *pwpi,
            *common,
            *verifier_only,
            *field,
            constants_template@,
            gates_template@,
            serialized_len,
        ) {
            Ok(a) => res is Ok && res->Ok_0@ == a,
            Err(e) => res == Err::<GeneratedArtifact, GenerationError>(e),
        },
{
    let config = match try_generate_verifier_config(pwpi) {
        Err(e) => {
            return Err(GenerationError::Shape(e));
        },
        Ok(c) => c,
    };
    let (constants, gates) = match generate_circom_verifier(
        &config,
        common,
        verifier_only,
        field,
        constants_template,
        gates_template,
    ) {
        Err(e) => {
            return Err(GenerationError::Generator(e));
        },
        Ok(texts) => texts,
    };
    let proof = match try_generate_proof_base64(pwpi, &config, serialized_len) {
        Err(e) => {
            return Err(GenerationError::Layout(e));
        },
        Ok(p) => p,
    };
    Ok(GeneratedArtifact { config, constants, gates, proof })
}

} // verus!
