//! The `.openw8s.yml` manifest (spec version 0.1): its fields, its
//! normalization and its validation rules.
//!
//! YAML reading and writing happen outside the library; the library holds a
//! manifest as plain values.  Memory sizes are IEEE-754 doubles held by their
//! bit patterns (`Binary64`) and compared as the hardware compares them.
use vstd::prelude::*;
use vstd::string::*;
use crate::binary64::{zero, Binary64};
use crate::text::{
    ascii_lower_text, chars_of, contains_char_exec, eq_ignore_ascii_case,
    eq_ignore_ascii_case_exec, is_blank, is_blank_exec, is_trimmed, lemma_lower_idempotent,
    lemma_lower_keeps_trimmed, lemma_trim_idempotent, lemma_trim_is_trimmed,
    lemma_trimmed_unchanged, same_text, to_ascii_lowercase, trim, trimmed, CharClass,
};

verus! {

/// `serde_yaml::Value`, carried through unread (the manifest's `evals`).
#[verifier::external_type_specification]
#[verifier::external_body]
pub struct ExYamlValue(serde_yaml::Value);

/// Supported lineage relationship kinds (spec v0.1).
#[derive(Debug, Clone, Copy, PartialEq, Eq)]
pub enum LineageKind {
    /// Root / base open-weight checkpoint (no parent).
    Base,
    /// Instruction / domain fine-tune of a parent model.
    FinetuneOf,
    /// Quantized derivative of a parent model.
    QuantizeOf,
    /// Merge / MoE / soup derived from one or more parents.
    MergeOf,
}

impl Default for LineageKind {
    fn default() -> (r: LineageKind)
        ensures
            r == LineageKind::Base,
    {
        LineageKind::Base
    }
}

pub open spec fn kind_name(k: LineageKind) -> Seq<char> {
    match k {
        LineageKind::Base => "base"@,
        LineageKind::FinetuneOf => "finetune_of"@,
        LineageKind::QuantizeOf => "quantize_of"@,
        LineageKind::MergeOf => "merge_of"@,
    }
}

/// The kind a normalized (trimmed, ASCII lower-cased) name denotes.
pub open spec fn kind_of_name(t: Seq<char>) -> Option<LineageKind> {
    if t == "base"@ {
        Some(LineageKind::Base)
    } else if t == "finetune_of"@ || t == "finetune"@ {
        Some(LineageKind::FinetuneOf)
    } else if t == "quantize_of"@ || t == "quantize"@ || t == "quant"@ {
        Some(LineageKind::QuantizeOf)
    } else if t == "merge_of"@ || t == "merge"@ {
        Some(LineageKind::MergeOf)
    } else {
        None
    }
}

/// A lineage kind name that is none of the accepted ones; `text` is the
/// name as compared (trimmed and ASCII lower-cased).
#[derive(Debug, Clone)]
pub struct UnknownLineageKind {
    pub text: String,
}

impl LineageKind {
    pub fn as_str(self) -> (r: &'static str)
        ensures
            r@ == kind_name(self),
    {
        match self {
            LineageKind::Base => "base",
            LineageKind::FinetuneOf => "finetune_of",
            LineageKind::QuantizeOf => "quantize_of",
            LineageKind::MergeOf => "merge_of",
        }
    }

    /// Reads a kind name, ignoring surrounding white space and ASCII case;
    /// `finetune`, `quantize`, `quant` and `merge` are accepted as short forms.
    pub fn parse(s: &str) -> (r: Result<LineageKind, UnknownLineageKind>)
        ensures
            match kind_of_name(ascii_lower_text(trim(s@))) {
                Some(k) => r == Ok::<LineageKind, UnknownLineageKind>(k),
                None => r matches Err(e) && e.text@ == ascii_lower_text(trim(s@)),
            },
    {
        let t = trimmed(s);
        let lower = to_ascii_lowercase(t.as_str());
        let l = lower.as_str();
        if same_text(l, "base") {
            Ok(LineageKind::Base)
        } else if same_text(l, "finetune_of") || same_text(l, "finetune") {
            Ok(LineageKind::FinetuneOf)
        } else if same_text(l, "quantize_of") || same_text(l, "quantize") || same_text(l, "quant") {
            Ok(LineageKind::QuantizeOf)
        } else if same_text(l, "merge_of") || same_text(l, "merge") {
            Ok(LineageKind::MergeOf)
        } else {
            Err(UnknownLineageKind { text: lower })
        }
    }
}

/// Optional lineage edge for environment / model ancestry.
#[derive(Debug, Clone, PartialEq, Eq)]
pub struct Lineage {
    pub kind: LineageKind,
    /// Parent Hugging Face repo id (required unless kind is `base`).
    pub parent: Option<String>,
}

/// Root schema for `.openw8s.yml` (spec version 0.1).
#[derive(Debug, Clone)]
pub struct Manifest {
    pub version: String,
    pub metadata: Metadata,
    pub hardware: Hardware,
    pub runtime: Runtime,
    pub evals: Option<serde_yaml::Value>,
}

#[derive(Debug, Clone)]
pub struct Metadata {
    pub name: String,
    pub base_model: String,
    /// Structured lineage (preferred).
    pub lineage: Option<Lineage>,
    /// Deprecated alias for `lineage.parent` (still accepted on load).
    pub parent_branch: Option<String>,
    pub author: String,
    pub license: String,
}

#[derive(Debug, Clone)]
pub struct Hardware {
    pub min_vram_gb: Binary64,
    pub recommended_vram_gb: Binary64,
    pub quantization: String,
    pub context_length: u64,
}

#[derive(Debug, Clone)]
pub struct Runtime {
    pub engine: String,
    pub command: String,
}

// ------------------------------------------------------------------
// Models
// ------------------------------------------------------------------
pub open spec fn opt_view(o: Option<String>) -> Option<Seq<char>> {
    match o {
        Some(s) => Some(s@),
        None => None,
    }
}

pub struct LineageModel {
    pub kind: LineageKind,
    pub parent: Option<Seq<char>>,
}

pub struct MetadataModel {
    pub name: Seq<char>,
    pub base_model: Seq<char>,
    pub lineage: Option<LineageModel>,
    pub parent_branch: Option<Seq<char>>,
    pub author: Seq<char>,
    pub license: Seq<char>,
}

pub struct HardwareModel {
    pub min_vram_gb: Binary64,
    pub recommended_vram_gb: Binary64,
    pub quantization: Seq<char>,
    pub context_length: u64,
}

pub struct RuntimeModel {
    pub engine: Seq<char>,
    pub command: Seq<char>,
}

/// A manifest's fields as values (`evals` is carried separately).
pub struct ManifestModel {
    pub version: Seq<char>,
    pub metadata: MetadataModel,
    pub hardware: HardwareModel,
    pub runtime: RuntimeModel,
}

impl View for Lineage {
    type V = LineageModel;

    open spec fn view(&self) -> LineageModel {
        LineageModel { kind: self.kind, parent: opt_view(self.parent) }
    }
}

pub open spec fn opt_lineage_view(o: Option<Lineage>) -> Option<LineageModel> {
    match o {
        Some(l) => Some(l@),
        None => None,
    }
}

impl View for Metadata {
    type V = MetadataModel;

    open spec fn view(&self) -> MetadataModel {
        MetadataModel {
            name: self.name@,
            base_model: self.base_model@,
            lineage: opt_lineage_view(self.lineage),
            parent_branch: opt_view(self.parent_branch),
            author: self.author@,
            license: self.license@,
        }
    }
}

impl View for Hardware {
    type V = HardwareModel;

    open spec fn view(&self) -> HardwareModel {
        HardwareModel {
            min_vram_gb: self.min_vram_gb,
            recommended_vram_gb: self.recommended_vram_gb,
            quantization: self.quantization@,
            context_length: self.context_length,
        }
    }
}

impl View for Runtime {
    type V = RuntimeModel;

    open spec fn view(&self) -> RuntimeModel {
        RuntimeModel { engine: self.engine@, command: self.command@ }
    }
}

impl View for Manifest {
    type V = ManifestModel;

    open spec fn view(&self) -> ManifestModel {
        ManifestModel {
            version: self.version@,
            metadata: self.metadata@,
            hardware: self.hardware@,
            runtime: self.runtime@,
        }
    }
}

// ------------------------------------------------------------------
// Normalization
// ------------------------------------------------------------------
/// The lineage after promoting a non-blank deprecated `parent_branch`.
pub open spec fn promoted_lineage(md: MetadataModel) -> Option<LineageModel> {
    match md.lineage {
        Some(l) => Some(l),
        None => match md.parent_branch {
            Some(p) => if trim(p).len() > 0 {
                Some(LineageModel { kind: LineageKind::FinetuneOf, parent: Some(trim(p)) })
            } else {
                None
            },
            None => None,
        },
    }
}

/// `parent_branch` mirrored from the lineage parent when it was missing.
pub open spec fn mirrored_parent_branch(md: MetadataModel) -> Option<Seq<char>> {
    match md.parent_branch {
        Some(p) => Some(p),
        None => match promoted_lineage(md) {
            Some(l) => l.parent,
            None => None,
        },
    }
}

pub open spec fn normalized(m: ManifestModel) -> ManifestModel {
    ManifestModel {
        version: m.version,
        metadata: MetadataModel {
            name: m.metadata.name,
            base_model: m.metadata.base_model,
            lineage: promoted_lineage(m.metadata),
            parent_branch: mirrored_parent_branch(m.metadata),
            author: m.metadata.author,
            license: m.metadata.license,
        },
        hardware: HardwareModel {
            min_vram_gb: m.hardware.min_vram_gb,
            recommended_vram_gb: m.hardware.recommended_vram_gb,
            quantization: trim(m.hardware.quantization),
            context_length: m.hardware.context_length,
        },
        runtime: RuntimeModel {
            engine: ascii_lower_text(trim(m.runtime.engine)),
            command: trim(m.runtime.command),
        },
    }
}

pub open spec fn effective_lineage_of(m: ManifestModel) -> LineageModel {
    match m.metadata.lineage {
        Some(l) => l,
        None => LineageModel { kind: LineageKind::Base, parent: None },
    }
}

// ------------------------------------------------------------------
// Validation
// ------------------------------------------------------------------
/// The fields that must be non-blank or look like a repo id.
#[derive(Debug, Clone, Copy, PartialEq, Eq)]
pub enum Field {
    MetadataName,
    MetadataBaseModel,
    MetadataAuthor,
    MetadataLicense,
    LineageParent,
    RuntimeCommand,
}

pub open spec fn field_path(f: Field) -> Seq<char> {
    match f {
        Field::MetadataName => "metadata.name"@,
        Field::MetadataBaseModel => "metadata.base_model"@,
        Field::MetadataAuthor => "metadata.author"@,
        Field::MetadataLicense => "metadata.license"@,
        Field::LineageParent => "lineage.parent"@,
        Field::RuntimeCommand => "runtime.command"@,
    }
}

impl Field {
    /// The field's path in the manifest.
    pub fn path(self) -> (r: &'static str)
        ensures
            r@ == field_path(self),
    {
        match self {
            Field::MetadataName => "metadata.name",
            Field::MetadataBaseModel => "metadata.base_model",
            Field::MetadataAuthor => "metadata.author",
            Field::MetadataLicense => "metadata.license",
            Field::LineageParent => "lineage.parent",
            Field::RuntimeCommand => "runtime.command",
        }
    }
}

/// Why a manifest is not valid; the first rule it breaks.
#[derive(Debug, Clone, Copy, PartialEq, Eq)]
pub enum ManifestError {
    /// `version` is not a supported spec version ("0.1").
    UnsupportedVersion,
    /// The field is empty or blank.
    EmptyField(Field),
    /// The field does not look like an HF repo id (`org/name`).
    NotHfRepo(Field),
    /// `lineage.kind` is `base` but `lineage.parent` is set.
    BaseWithParent,
    /// A derived lineage kind without a parent.
    MissingParent(LineageKind),
    /// `hardware.min_vram_gb` is not greater than zero.
    MinVramNotPositive,
    /// `hardware.recommended_vram_gb` is below `hardware.min_vram_gb`.
    RecommendedBelowMin,
    /// `hardware.context_length` is zero.
    ZeroContextLength,
    /// `hardware.quantization` is not in the allow-list.
    QuantizationNotAllowed,
    /// `runtime.engine` is not in the allow-list.
    EngineNotAllowed,
}

pub open spec fn nonblank_check(f: Field, v: Seq<char>) -> Result<(), ManifestError> {
    if is_blank(v) {
        Err(ManifestError::EmptyField(f))
    } else {
        Ok(())
    }
}

/// A repo id: non-blank, holds a `/`, and neither starts nor ends with one.
pub open spec fn hf_repo_check(f: Field, v: Seq<char>) -> Result<(), ManifestError> {
    if is_blank(v) {
        Err(ManifestError::EmptyField(f))
    } else if !v.contains('/') || v[0] == '/' || v.last() == '/' {
        Err(ManifestError::NotHfRepo(f))
    } else {
        Ok(())
    }
}

pub open spec fn lineage_check(l: Option<LineageModel>) -> Result<(), ManifestError> {
    match l {
        None => Ok(()),
        Some(l) => if l.kind == LineageKind::Base {
            if l.parent matches Some(p) && !is_blank(p) {
                Err(ManifestError::BaseWithParent)
            } else {
                Ok(())
            }
        } else {
            let p = trim(
                match l.parent {
                    Some(p) => p,
                    None => Seq::<char>::empty(),
                },
            );
            if p.len() == 0 {
                Err(ManifestError::MissingParent(l.kind))
            } else {
                hf_repo_check(Field::LineageParent, p)
            }
        },
    }
}

pub open spec fn allowed_quantization(q: Seq<char>) -> bool {
    ||| eq_ignore_ascii_case(q, "FP16"@)
    ||| eq_ignore_ascii_case(q, "BF16"@)
    ||| eq_ignore_ascii_case(q, "INT8"@)
    ||| eq_ignore_ascii_case(q, "INT4"@)
    ||| eq_ignore_ascii_case(q, "AWQ"@)
    ||| eq_ignore_ascii_case(q, "GGUF-Q4_K_M"@)
    ||| eq_ignore_ascii_case(q, "GGUF-Q5_K_M"@)
    ||| eq_ignore_ascii_case(q, "GGUF-Q8_0"@)
}

pub open spec fn allowed_engine(e: Seq<char>) -> bool {
    e == "vllm"@ || e == "ollama"@ || e == "llamacpp"@ || e == "docker"@
}

/// The rules of spec version 0.1, checked in this order.
pub open spec fn validation(m: ManifestModel) -> Result<(), ManifestError> {
    if m.version != "0.1"@ {
        Err(ManifestError::UnsupportedVersion)
    } else if nonblank_check(Field::MetadataName, m.metadata.name) is Err {
        nonblank_check(Field::MetadataName, m.metadata.name)
    } else if hf_repo_check(Field::MetadataBaseModel, m.metadata.base_model) is Err {
        hf_repo_check(Field::MetadataBaseModel, m.metadata.base_model)
    } else if nonblank_check(Field::MetadataAuthor, m.metadata.author) is Err {
        nonblank_check(Field::MetadataAuthor, m.metadata.author)
    } else if nonblank_check(Field::MetadataLicense, m.metadata.license) is Err {
        nonblank_check(Field::MetadataLicense, m.metadata.license)
    } else if lineage_check(m.metadata.lineage) is Err {
        lineage_check(m.metadata.lineage)
    } else if m.hardware.min_vram_gb.at_most(zero()) {
        Err(ManifestError::MinVramNotPositive)
    } else if m.hardware.recommended_vram_gb.less_than(m.hardware.min_vram_gb) {
        Err(ManifestError::RecommendedBelowMin)
    } else if m.hardware.context_length == 0 {
        Err(ManifestError::ZeroContextLength)
    } else if !allowed_quantization(m.hardware.quantization) {
        Err(ManifestError::QuantizationNotAllowed)
    } else if !allowed_engine(m.runtime.engine) {
        Err(ManifestError::EngineNotAllowed)
    } else {
        nonblank_check(Field::RuntimeCommand, m.runtime.command)
    }
}

fn require_nonempty(field: Field, value: &str) -> (r: Result<(), ManifestError>)
    ensures
        r == nonblank_check(field, value@),
{
    if is_blank_exec(value) {
        Err(ManifestError::EmptyField(field))
    } else {
        Ok(())
    }
}

fn require_hf_repo(field: Field, value: &str) -> (r: Result<(), ManifestError>)
    ensures
        r == hf_repo_check(field, value@),
{
    match require_nonempty(field, value) {
        Ok(()) => {},
        Err(e) => return Err(e),
    }
    let v = chars_of(value);
    proof {
        if v@.len() == 0 {
            assert(trim(v@) =~= v@);
        }
    }
    if !contains_char_exec(&v, '/') || v[0] == '/' || v[v.len() - 1] == '/' {
        return Err(ManifestError::NotHfRepo(field));
    }
    Ok(())
}

fn allowed_quantization_exec(q: &str) -> (r: bool)
    ensures
        r == allowed_quantization(q@),
{
    eq_ignore_ascii_case_exec(q, "FP16") || eq_ignore_ascii_case_exec(q, "BF16")
        || eq_ignore_ascii_case_exec(q, "INT8") || eq_ignore_ascii_case_exec(q, "INT4")
        || eq_ignore_ascii_case_exec(q, "AWQ") || eq_ignore_ascii_case_exec(q, "GGUF-Q4_K_M")
        || eq_ignore_ascii_case_exec(q, "GGUF-Q5_K_M") || eq_ignore_ascii_case_exec(q, "GGUF-Q8_0")
}

fn allowed_engine_exec(e: &str) -> (r: bool)
    ensures
        r == allowed_engine(e@),
{
    same_text(e, "vllm") || same_text(e, "ollama") || same_text(e, "llamacpp") || same_text(
        e,
        "docker",
    )
}

fn check_lineage(lineage: &Option<Lineage>) -> (r: Result<(), ManifestError>)
    ensures
        r == lineage_check(opt_lineage_view(*lineage)),
{
    match lineage {
        None => Ok(()),
        Some(l) => match l.kind {
            LineageKind::Base => {
                match &l.parent {
                    Some(p) => if !is_blank_exec(p.as_str()) {
                        return Err(ManifestError::BaseWithParent);
                    },
                    None => {},
                }
                Ok(())
            },
            _ => {
                let p = match &l.parent {
                    Some(p) => trimmed(p.as_str()),
                    None => trimmed(""),
                };
                proof {
                    if l.parent is None {
                        assert(""@ =~= Seq::<char>::empty()) by {
                            reveal_strlit("");
                        }
                    }
                }
                if p.as_str().is_empty() {
                    return Err(ManifestError::MissingParent(l.kind));
                }
                require_hf_repo(Field::LineageParent, p.as_str())
            },
        },
    }
}

impl Manifest {
    /// Promotes a non-blank deprecated `parent_branch` into a `finetune_of`
    /// lineage when there is none, mirrors the lineage parent into a missing
    /// `parent_branch`, trims the quantization and command, and trims and
    /// ASCII lower-cases the engine.
    pub fn normalize(&mut self)
        ensures
            final(self)@ == normalized(old(self)@),
            final(self).evals == old(self).evals,
    {
        if self.metadata.lineage.is_none() {
            let promoted: Option<String> = match &self.metadata.parent_branch {
                Some(pb) => {
                    let t = trimmed(pb.as_str());
                    if t.as_str().is_empty() {
                        None
                    } else {
                        Some(t)
                    }
                },
                None => None,
            };
            match promoted {
                Some(parent) => {
                    self.metadata.lineage = Some(
                        Lineage { kind: LineageKind::FinetuneOf, parent: Some(parent) },
                    );
                },
                None => {},
            }
        }
        let mirror: Option<String> = match &self.metadata.lineage {
            Some(l) => match &l.parent {
                Some(p) => if self.metadata.parent_branch.is_none() {
                    Some(p.clone())
                } else {
                    None
                },
                None => None,
            },
            None => None,
        };
        match mirror {
            Some(p) => {
                self.metadata.parent_branch = Some(p);
            },
            None => {},
        }
        let engine = trimmed(self.runtime.engine.as_str());
        self.runtime.engine = to_ascii_lowercase(engine.as_str());
        self.hardware.quantization = trimmed(self.hardware.quantization.as_str());
        self.runtime.command = trimmed(self.runtime.command.as_str());
    }

    /// Checks the rules of spec version 0.1 in order and reports the first
    /// one broken.
    pub fn validate(&self) -> (r: Result<(), ManifestError>)
        ensures
            r == validation(self@),
    {
        if !same_text(self.version.as_str(), "0.1") {
            return Err(ManifestError::UnsupportedVersion);
        }
        match require_nonempty(Field::MetadataName, self.metadata.name.as_str()) {
            Ok(()) => {},
            Err(e) => return Err(e),
        }
        match require_hf_repo(Field::MetadataBaseModel, self.metadata.base_model.as_str()) {
            Ok(()) => {},
            Err(e) => return Err(e),
        }
        match require_nonempty(Field::MetadataAuthor, self.metadata.author.as_str()) {
            Ok(()) => {},
            Err(e) => return Err(e),
        }
        match require_nonempty(Field::MetadataLicense, self.metadata.license.as_str()) {
            Ok(()) => {},
            Err(e) => return Err(e),
        }
        match check_lineage(&self.metadata.lineage) {
            Ok(()) => {},
            Err(e) => return Err(e),
        }
        if self.hardware.min_vram_gb.le(&Binary64(0)) {
            return Err(ManifestError::MinVramNotPositive);
        }
        if self.hardware.recommended_vram_gb.lt(&self.hardware.min_vram_gb) {
            return Err(ManifestError::RecommendedBelowMin);
        }
        if self.hardware.context_length == 0 {
            return Err(ManifestError::ZeroContextLength);
        }
        if !allowed_quantization_exec(self.hardware.quantization.as_str()) {
            return Err(ManifestError::QuantizationNotAllowed);
        }
        if !allowed_engine_exec(self.runtime.engine.as_str()) {
            return Err(ManifestError::EngineNotAllowed);
        }
        require_nonempty(Field::RuntimeCommand, self.runtime.command.as_str())
    }

    /// What loading does once the fields are read: normalize, then validate.
    pub fn accept(self) -> (r: Result<Manifest, ManifestError>)
        ensures
            match r {
                Ok(m) => m@ == normalized(self@) && validation(normalized(self@)) is Ok && m.evals
                    == self.evals,
                Err(e) => validation(normalized(self@)) == Err::<(), ManifestError>(e),
            },
    {
        let mut m = self;
        m.normalize();
        match m.validate() {
            Ok(()) => Ok(m),
            Err(e) => Err(e),
        }
    }

    /// The declared lineage, or `base` without a parent.
    pub fn effective_lineage(&self) -> (r: Lineage)
        ensures
            r@ == effective_lineage_of(self@),
    {
        match &self.metadata.lineage {
            Some(l) => Lineage {
                kind: l.kind,
                parent: match &l.parent {
                    Some(p) => Some(p.clone()),
                    None => None,
                },
            },
            None => Lineage { kind: LineageKind::Base, parent: None },
        }
    }
}


// ------------------------------------------------------------------
// Laws
// ------------------------------------------------------------------
/// Normalizing a manifest twice gives what normalizing it once gives.
pub proof fn law_normalize_idempotent(m: ManifestModel)
    ensures
        normalized(normalized(m)) == normalized(m),
{
    lemma_trim_idempotent(m.hardware.quantization, CharClass::Whitespace);
    lemma_trim_idempotent(m.runtime.command, CharClass::Whitespace);
    let t = trim(m.runtime.engine);
    lemma_trim_is_trimmed(m.runtime.engine, CharClass::Whitespace);
    lemma_lower_keeps_trimmed(t);
    lemma_trimmed_unchanged(ascii_lower_text(t), CharClass::Whitespace);
    lemma_lower_idempotent(t);
}

/// A manifest without a lineage but with a non-blank deprecated
/// `parent_branch` has, once normalized, a `finetune_of` lineage whose parent
/// is the trimmed `parent_branch`, which itself is kept.
pub proof fn law_parent_branch_promoted(m: ManifestModel)
    requires
        m.metadata.lineage is None,
        m.metadata.parent_branch matches Some(p) && !is_blank(p),
    ensures
        effective_lineage_of(normalized(m)) == (LineageModel {
            kind: LineageKind::FinetuneOf,
            parent: Some(trim(m.metadata.parent_branch->0)),
        }),
        normalized(m).metadata.parent_branch == m.metadata.parent_branch,
{
}

/// Once normalized, a manifest whose lineage names a parent also carries a
/// `parent_branch`.
pub proof fn law_parent_branch_mirrored(m: ManifestModel)
    ensures
        effective_lineage_of(normalized(m)).parent is Some ==> normalized(
            m,
        ).metadata.parent_branch is Some,
{
}

/// In a valid manifest the effective lineage is coherent: a `base` lineage
/// has no non-blank parent, and every other kind has a parent that, trimmed,
/// looks like an HF repo id.
pub proof fn law_valid_lineage(m: ManifestModel)
    requires
        validation(m) is Ok,
    ensures
        effective_lineage_of(m).kind == LineageKind::Base ==> (effective_lineage_of(m).parent matches Some(
            p,
        ) ==> is_blank(p)),
        effective_lineage_of(m).kind != LineageKind::Base ==> (effective_lineage_of(m).parent matches Some(
            p,
        ) && hf_repo_check(Field::LineageParent, trim(p)) is Ok),
{
}

/// A valid manifest names one of the four engines and a quantization from
/// the allow-list, with a positive minimum memory not above the recommended
/// one and a positive context length.  (The memory comparisons hold for
/// numbers; a NaN passes both memory rules.)
pub proof fn law_valid_hardware_and_runtime(m: ManifestModel)
    requires
        validation(m) is Ok,
        !m.hardware.min_vram_gb.is_nan(),
        !m.hardware.recommended_vram_gb.is_nan(),
    ensures
        allowed_engine(m.runtime.engine),
        allowed_quantization(m.hardware.quantization),
        zero().less_than(m.hardware.min_vram_gb),
        m.hardware.min_vram_gb.at_most(m.hardware.recommended_vram_gb),
        m.hardware.context_length > 0,
{
}

/// Every kind's name reads back as that kind.
pub proof fn law_kind_name_round_trip(k: LineageKind)
    ensures
        kind_of_name(ascii_lower_text(trim(kind_name(k)))) == Some(k),
{
    reveal_strlit("base");
    reveal_strlit("finetune_of");
    reveal_strlit("finetune");
    reveal_strlit("quantize_of");
    reveal_strlit("quantize");
    reveal_strlit("quant");
    reveal_strlit("merge_of");
    reveal_strlit("merge");
    let s = kind_name(k);
    assert(is_trimmed(s, CharClass::Whitespace));
    lemma_trimmed_unchanged(s, CharClass::Whitespace);
    assert(ascii_lower_text(s) =~= s);
}

/// Loading is stable: a manifest that loads (normalized and valid) loads
/// again as itself.
pub proof fn law_accepted_manifest_loads_as_itself(m: ManifestModel)
    requires
        validation(normalized(m)) is Ok,
    ensures
        normalized(normalized(m)) == normalized(m),
        validation(normalized(normalized(m))) is Ok,
{
    law_normalize_idempotent(m);
}

/// The engine allow-list is exactly `vllm`, `ollama`, `llamacpp` and
/// `docker`: a manifest naming one of them is never refused for its engine,
/// and a manifest naming any other engine is never accepted.
pub proof fn law_engine_allow_list(m: ManifestModel)
    ensures
        (m.runtime.engine == "vllm"@ || m.runtime.engine == "ollama"@ || m.runtime.engine
            == "llamacpp"@ || m.runtime.engine == "docker"@) ==> validation(m)
            != Err::<(), ManifestError>(ManifestError::EngineNotAllowed),
        validation(m) is Ok ==> (m.runtime.engine == "vllm"@ || m.runtime.engine == "ollama"@
            || m.runtime.engine == "llamacpp"@ || m.runtime.engine == "docker"@),
{
}

/// A valid manifest stays valid when its engine is replaced by any of the
/// four listed engines.
pub proof fn law_listed_engines_interchangeable(m: ManifestModel, engine: Seq<char>)
    requires
        validation(m) is Ok,
        engine == "vllm"@ || engine == "ollama"@ || engine == "llamacpp"@ || engine == "docker"@,
    ensures
        validation(
            ManifestModel {
                runtime: RuntimeModel { engine, command: m.runtime.command },
                ..m
            },
        ) is Ok,
{
}

/// The quantization allow-list is exactly FP16, BF16, INT8, INT4, AWQ,
/// GGUF-Q4_K_M, GGUF-Q5_K_M and GGUF-Q8_0, in any ASCII case: a manifest
/// naming one of them is never refused for its quantization, and one naming
/// anything else is never accepted.
pub proof fn law_quantization_allow_list(m: ManifestModel)
    ensures
        ({
            let q = m.hardware.quantization;
            ||| eq_ignore_ascii_case(q, "FP16"@)
            ||| eq_ignore_ascii_case(q, "BF16"@)
            ||| eq_ignore_ascii_case(q, "INT8"@)
            ||| eq_ignore_ascii_case(q, "INT4"@)
            ||| eq_ignore_ascii_case(q, "AWQ"@)
            ||| eq_ignore_ascii_case(q, "GGUF-Q4_K_M"@)
            ||| eq_ignore_ascii_case(q, "GGUF-Q5_K_M"@)
            ||| eq_ignore_ascii_case(q, "GGUF-Q8_0"@)
        }) ==> validation(m) != Err::<(), ManifestError>(
            ManifestError::QuantizationNotAllowed,
        ),
        validation(m) is Ok ==> ({
            let q = m.hardware.quantization;
            ||| eq_ignore_ascii_case(q, "FP16"@)
            ||| eq_ignore_ascii_case(q, "BF16"@)
            ||| eq_ignore_ascii_case(q, "INT8"@)
            ||| eq_ignore_ascii_case(q, "INT4"@)
            ||| eq_ignore_ascii_case(q, "AWQ"@)
            ||| eq_ignore_ascii_case(q, "GGUF-Q4_K_M"@)
            ||| eq_ignore_ascii_case(q, "GGUF-Q5_K_M"@)
            ||| eq_ignore_ascii_case(q, "GGUF-Q8_0"@)
        }),
{
}

/// Engines are compared after normalization: an engine written as one of
/// the four listed names, in any ASCII case and with surrounding white
/// space, normalizes to that name and is never refused for its engine.
pub proof fn law_engine_spelling_normalized(m: ManifestModel, listed: Seq<char>)
    requires
        listed == "vllm"@ || listed == "ollama"@ || listed == "llamacpp"@ || listed == "docker"@,
        eq_ignore_ascii_case(trim(m.runtime.engine), listed),
    ensures
        normalized(m).runtime.engine == listed,
        validation(normalized(m)) != Err::<(), ManifestError>(ManifestError::EngineNotAllowed),
{
    reveal_strlit("vllm");
    reveal_strlit("ollama");
    reveal_strlit("llamacpp");
    reveal_strlit("docker");
    assert(ascii_lower_text(listed) =~= listed);
    law_engine_allow_list(normalized(m));
}

} // verus!
