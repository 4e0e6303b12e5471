//! The contract engine: contracts with their key/value state, the commands
//! and tasks they execute, and the advertisements of GPU capacity.

use crate::crypto::der_signature_parses;
use crate::crypto::ecdsa_verifies;
use crate::crypto::is_der_signature;
use crate::crypto::PublicKey;
use crate::crypto::DIGEST_LEN;
use crate::encoding::copy_bytes;
use crate::encoding::str_equal;
use crate::string_map::StringMap;
use crate::words::split_whitespace;
use crate::words::words_of;
use crate::words::is_word;
use crate::words::lemma_words_of_three;
use crate::words::lemma_words_of_two;
use vstd::prelude::*;
use vstd::string::StringExecFns;

verus! {

/// The kinds of model that an inference contract can run.
#[derive(Clone, Copy, Debug, PartialEq, Eq, Structural)]
pub enum AIModel {
    ImageClassification,
    NaturalLanguageProcessing,
    ObjectDetection,
}

/// The name of a kind of model.
pub open spec fn model_name(model: AIModel) -> Seq<char> {
    match model {
        AIModel::ImageClassification => "ImageClassification"@,
        AIModel::NaturalLanguageProcessing => "NaturalLanguageProcessing"@,
        AIModel::ObjectDetection => "ObjectDetection"@,
    }
}

impl AIModel {
    /// The name of the kind.
    pub fn name(&self) -> (name: &'static str)
        ensures
            name@ == model_name(*self),
    {
        match self {
            AIModel::ImageClassification => "ImageClassification",
            AIModel::NaturalLanguageProcessing => "NaturalLanguageProcessing",
            AIModel::ObjectDetection => "ObjectDetection",
        }
    }
}

/// A task for an inference contract.
#[derive(Debug)]
pub enum AITask {
    /// Runs the model on serialised input.
    Inference { model: AIModel, input_data: Vec<u8> },
    /// Offers serialised training data.
    TrainingContribution { model: AIModel, training_data: Vec<u8> },
}

/// A task as a mathematical value.
pub enum AITaskView {
    Inference { model: AIModel, input_data: Seq<u8> },
    TrainingContribution { model: AIModel, training_data: Seq<u8> },
}

impl View for AITask {
    type V = AITaskView;

    open spec fn view(&self) -> AITaskView {
        match *self {
            AITask::Inference { model, input_data } => AITaskView::Inference {
                model,
                input_data: input_data@,
            },
            AITask::TrainingContribution { model, training_data } => {
                AITaskView::TrainingContribution { model, training_data: training_data@ }
            },
        }
    }
}

impl Clone for AITask {
    fn clone(&self) -> (copy: Self)
        ensures
            copy@ == self@,
    {
        match self {
            AITask::Inference { model, input_data } => AITask::Inference {
                model: *model,
                input_data: copy_bytes(input_data.as_slice()),
            },
            AITask::TrainingContribution { model, training_data } => {
                AITask::TrainingContribution {
                    model: *model,
                    training_data: copy_bytes(training_data.as_slice()),
                }
            },
        }
    }
}

/// The answer to a task. No model runs: the answer only names the task and
/// the kind of model that it is for.
pub open spec fn task_reply(task: AITaskView) -> Seq<char> {
    match task {
        AITaskView::Inference { model, .. } => "Inference completed for "@ + model_name(model)
            + " model"@,
        AITaskView::TrainingContribution { model, .. } => {
            "Training data contribution received for "@ + model_name(model) + " model"@
        },
    }
}

/// Why the contract engine refused an operation.
#[derive(Clone, Copy, Debug, PartialEq, Eq, Structural)]
pub enum ContractError {
    /// A contract with the identifier exists already.
    DuplicateId,
    /// The contract is of a kind that takes no tasks.
    UnsupportedOperation,
    /// The message to verify is not 32 bytes long.
    InvalidMessage,
    /// The signature to verify is no DER-encoded signature.
    InvalidSignature,
    /// The signature is not valid for the message under the key.
    VerificationFailed,
}

impl ContractError {
    /// A description of the error.
    pub fn message(&self) -> (text: String)
        ensures
            text@ == (match *self {
                ContractError::DuplicateId => "Contract with this ID already exists"@,
                ContractError::UnsupportedOperation => "This contract does not support AI tasks"@,
                ContractError::InvalidMessage => "Invalid message"@,
                ContractError::InvalidSignature => "Invalid signature format"@,
                ContractError::VerificationFailed => "Verification failed"@,
            }),
    {
        match self {
            ContractError::DuplicateId => "Contract with this ID already exists".to_owned(),
            ContractError::UnsupportedOperation => {
                "This contract does not support AI tasks".to_owned()
            },
            ContractError::InvalidMessage => "Invalid message".to_owned(),
            ContractError::InvalidSignature => "Invalid signature format".to_owned(),
            ContractError::VerificationFailed => "Verification failed".to_owned(),
        }
    }
}

/// The terms of a contract that runs inference tasks.
#[derive(Debug)]
pub struct AIInferenceContract {
    pub owner: PublicKey,
    pub model: AIModel,
    pub state: StringMap<String>,
    pub gpu_requirements: String,
    pub ram_requirements: u64,
}

/// An inference contract as a mathematical value.
pub struct AIInferenceContractView {
    pub owner: Seq<u8>,
    pub model: AIModel,
    pub state: Map<Seq<char>, Seq<char>>,
    pub gpu_requirements: Seq<char>,
    pub ram_requirements: nat,
}

impl View for AIInferenceContract {
    type V = AIInferenceContractView;

    open spec fn view(&self) -> AIInferenceContractView {
        AIInferenceContractView {
            owner: self.owner@,
            model: self.model,
            state: self.state@,
            gpu_requirements: self.gpu_requirements@,
            ram_requirements: self.ram_requirements as nat,
        }
    }
}

impl Clone for AIInferenceContract {
    fn clone(&self) -> (copy: Self)
        ensures
            copy@ == self@,
    {
        AIInferenceContract {
            owner: self.owner.clone(),
            model: self.model,
            state: self.state.clone(),
            gpu_requirements: self.gpu_requirements.clone(),
            ram_requirements: self.ram_requirements,
        }
    }
}

impl AIInferenceContract {
    /// The terms of a new contract, with empty state.
    pub fn new(
        owner: PublicKey,
        model: AIModel,
        gpu_requirements: String,
        ram_requirements: u64,
    ) -> (contract: Self)
        ensures
            contract@ == (AIInferenceContractView {
                owner: owner@,
                model,
                state: Map::empty(),
                gpu_requirements: gpu_requirements@,
                ram_requirements: ram_requirements as nat,
            }),
    {
        let state: StringMap<String> = StringMap::new();
        let count = state.len();
        assert(state@ =~= Map::empty());
        AIInferenceContract { owner, model, state, gpu_requirements, ram_requirements }
    }

    /// Executes `task`. Every task is accepted and answered; the contract
    /// does not change.
    pub fn execute(&mut self, task: AITask) -> (result: Result<String, ContractError>)
        ensures
            final(self)@ == old(self)@,
            result matches Ok(text) && text@ == task_reply(task@),
    {
        let mut text = match &task {
            AITask::Inference { .. } => "Inference completed for ".to_owned(),
            AITask::TrainingContribution { .. } => {
                "Training data contribution received for ".to_owned()
            },
        };
        let model = match &task {
            AITask::Inference { model, .. } => *model,
            AITask::TrainingContribution { model, .. } => *model,
        };
        text.append(model.name());
        text.append(" model");
        Ok(text)
    }
}

/// What a contract is for.
#[derive(Debug)]
pub enum ContractType {
    /// Registers a miner with its hardware.
    MinerRegistration { gpu_type: String, ram_capacity: u64 },
    /// Runs inference tasks.
    AIInference(AIInferenceContract),
}

/// The kind of a contract as a mathematical value.
pub enum ContractTypeView {
    MinerRegistration { gpu_type: Seq<char>, ram_capacity: nat },
    AIInference(AIInferenceContractView),
}

impl View for ContractType {
    type V = ContractTypeView;

    open spec fn view(&self) -> ContractTypeView {
        match *self {
            ContractType::MinerRegistration { gpu_type, ram_capacity } => {
                ContractTypeView::MinerRegistration {
                    gpu_type: gpu_type@,
                    ram_capacity: ram_capacity as nat,
                }
            },
            ContractType::AIInference(terms) => ContractTypeView::AIInference(terms@),
        }
    }
}

impl Clone for ContractType {
    fn clone(&self) -> (copy: Self)
        ensures
            copy@ == self@,
    {
        match self {
            ContractType::MinerRegistration { gpu_type, ram_capacity } => {
                ContractType::MinerRegistration {
                    gpu_type: gpu_type.clone(),
                    ram_capacity: *ram_capacity,
                }
            },
            ContractType::AIInference(terms) => ContractType::AIInference(terms.clone()),
        }
    }
}

/// What a command asks of a contract's state.
pub enum Command {
    /// Gives the key the value.
    Store { key: Seq<char>, value: Seq<char> },
    /// Asks for the value of the key.
    Fetch { key: Seq<char> },
    /// Anything else.
    Invalid,
}

/// The command that `input` stands for: `set <key> <value>` and
/// `get <key>`, split at white space, are the commands.
pub open spec fn command_of(input: Seq<char>) -> Command {
    let words = words_of(input);
    if words.len() == 3 && words[0] == "set"@ {
        Command::Store { key: words[1], value: words[2] }
    } else if words.len() == 2 && words[0] == "get"@ {
        Command::Fetch { key: words[1] }
    } else {
        Command::Invalid
    }
}

/// The state of a contract after it has executed `input`.
pub open spec fn state_after(
    state: Map<Seq<char>, Seq<char>>,
    input: Seq<char>,
) -> Map<Seq<char>, Seq<char>> {
    match command_of(input) {
        Command::Store { key, value } => state.insert(key, value),
        _ => state,
    }
}

/// What a contract with the state `state` answers to `input`.
pub open spec fn output_of(state: Map<Seq<char>, Seq<char>>, input: Seq<char>) -> Seq<char> {
    match command_of(input) {
        Command::Store { .. } => "Set operation completed"@,
        Command::Fetch { key } => if state.contains_key(key) {
            state[key]
        } else {
            "Key not found"@
        },
        Command::Invalid => "Invalid operation"@,
    }
}

/// A value that was set is the value that a later `get` of the same key
/// returns, whatever the state was before.
pub proof fn lemma_get_after_set(
    state: Map<Seq<char>, Seq<char>>,
    key: Seq<char>,
    value: Seq<char>,
)
    requires
        is_word(key),
        is_word(value),
    ensures
        output_of(
            state_after(state, "set"@ + seq![' '] + key + seq![' '] + value),
            "get"@ + seq![' '] + key,
        ) == value,
{
    reveal_strlit("set");
    reveal_strlit("get");
    assert(is_word("set"@));
    assert(is_word("get"@));
    lemma_words_of_three("set"@, key, value);
    lemma_words_of_two("get"@, key);
}

/// A contract.
#[derive(Debug)]
pub struct SmartContract {
    /// The key of the contract's owner.
    pub owner: PublicKey,
    /// The contract's code; the engine does not read it.
    pub code: Vec<u8>,
    /// The contract's state.
    pub state: StringMap<String>,
    /// What the contract is for.
    pub contract_type: ContractType,
}

/// A contract as a mathematical value.
pub struct SmartContractView {
    pub owner: Seq<u8>,
    pub code: Seq<u8>,
    pub state: Map<Seq<char>, Seq<char>>,
    pub contract_type: ContractTypeView,
}

impl View for SmartContract {
    type V = SmartContractView;

    open spec fn view(&self) -> SmartContractView {
        SmartContractView {
            owner: self.owner@,
            code: self.code@,
            state: self.state@,
            contract_type: self.contract_type@,
        }
    }
}

impl Clone for SmartContract {
    fn clone(&self) -> (copy: Self)
        ensures
            copy@ == self@,
    {
        SmartContract {
            owner: self.owner.clone(),
            code: copy_bytes(self.code.as_slice()),
            state: self.state.clone(),
            contract_type: self.contract_type.clone(),
        }
    }
}

/// The contract that deployment makes: its state is empty.
pub open spec fn new_contract(
    owner: Seq<u8>,
    code: Seq<u8>,
    contract_type: ContractTypeView,
) -> SmartContractView {
    SmartContractView { owner, code, state: Map::empty(), contract_type }
}

impl SmartContract {
    /// A new contract, with empty state.
    pub fn new(owner: PublicKey, code: Vec<u8>, contract_type: ContractType) -> (contract: Self)
        ensures
            contract@ == new_contract(owner@, code@, contract_type@),
    {
        let state: StringMap<String> = StringMap::new();
        let count = state.len();
        assert(state@ =~= Map::empty());
        SmartContract { owner, code, state, contract_type }
    }

    /// Executes the command `input` on the contract's state, and returns
    /// the answer.
    pub fn execute(&mut self, input: &str) -> (output: String)
        ensures
            final(self)@ == (SmartContractView {
                state: state_after(old(self)@.state, input@),
                ..old(self)@
            }),
            output@ == output_of(old(self)@.state, input@),
    {
        let words = split_whitespace(input);
        if words.len() == 3 && str_equal(words[0].as_str(), "set") {
            let key = words[1].clone();
            let value = words[2].clone();
            self.state.insert(key, value);
            "Set operation completed".to_owned()
        } else if words.len() == 2 && str_equal(words[0].as_str(), "get") {
            match self.state.position(words[1].as_str()) {
                Some(i) => self.state.value_at(i).clone(),
                None => "Key not found".to_owned(),
            }
        } else {
            "Invalid operation".to_owned()
        }
    }

    /// Executes `task`, which only a contract for inference accepts. The
    /// contract does not change.
    pub fn execute_ai_task(&mut self, task: AITask) -> (result: Result<String, ContractError>)
        ensures
            final(self)@ == old(self)@,
            (match result {
                Ok(text) => old(self).contract_type is AIInference && text@ == task_reply(task@),
                Err(error) => !(old(self).contract_type is AIInference) && error
                    == ContractError::UnsupportedOperation,
            }),
    {
        match &mut self.contract_type {
            ContractType::AIInference(terms) => terms.execute(task),
            _ => Err(ContractError::UnsupportedOperation),
        }
    }
}

/// The contracts of an engine after a deployment under `id`: the new
/// contract is added where the engine has none under `id`, and nothing
/// changes where it has one.
pub open spec fn engine_after_deploy(
    engine: Map<Seq<char>, SmartContractView>,
    id: Seq<char>,
    owner: Seq<u8>,
    code: Seq<u8>,
    contract_type: ContractTypeView,
) -> Map<Seq<char>, SmartContractView> {
    if engine.contains_key(id) {
        engine
    } else {
        engine.insert(id, new_contract(owner, code, contract_type))
    }
}

/// After a deployment under `id` the engine holds a contract under `id`, so
/// that a second deployment under `id` is refused and changes nothing; and
/// where the first deployment was accepted, the state of its contract is
/// empty.
pub proof fn lemma_second_deployment_is_refused(
    engine: Map<Seq<char>, SmartContractView>,
    id: Seq<char>,
    owner: Seq<u8>,
    code: Seq<u8>,
    contract_type: ContractTypeView,
    other_owner: Seq<u8>,
    other_code: Seq<u8>,
    other_type: ContractTypeView,
)
    ensures
        engine_after_deploy(engine, id, owner, code, contract_type).contains_key(id),
        engine_after_deploy(
            engine_after_deploy(engine, id, owner, code, contract_type),
            id,
            other_owner,
            other_code,
            other_type,
        ) == engine_after_deploy(engine, id, owner, code, contract_type),
        !engine.contains_key(id) ==> engine_after_deploy(
            engine,
            id,
            owner,
            code,
            contract_type,
        )[id].state == Map::<Seq<char>, Seq<char>>::empty(),
{
}

/// The contract engine: the deployed contracts by their identifiers.
#[derive(Debug)]
pub struct ContractManager {
    /// The contracts, in the order of deployment.
    pub contracts: StringMap<SmartContract>,
}

impl View for ContractManager {
    type V = Map<Seq<char>, SmartContractView>;

    open spec fn view(&self) -> Map<Seq<char>, SmartContractView> {
        self.contracts@
    }
}

impl ContractManager {
    /// An engine without contracts.
    pub fn new() -> (manager: Self)
        ensures
            manager@ == Map::<Seq<char>, SmartContractView>::empty(),
    {
        let contracts: StringMap<SmartContract> = StringMap::new();
        let count = contracts.len();
        assert(contracts@ =~= Map::empty());
        ContractManager { contracts }
    }

    /// Deploys a contract under the identifier `id`, which no contract may
    /// have yet, and returns a copy of it. The new contract's state is empty.
    pub fn deploy_contract(
        &mut self,
        id: String,
        owner: PublicKey,
        code: Vec<u8>,
        contract_type: ContractType,
    ) -> (result: Result<SmartContract, ContractError>)
        ensures
            final(self)@ == engine_after_deploy(old(self)@, id@, owner@, code@, contract_type@),
            (match result {
                Ok(contract) => !old(self)@.contains_key(id@) && contract@ == new_contract(
                    owner@,
                    code@,
                    contract_type@,
                ) && final(self).contracts.keys() == old(self).contracts.keys().push(id@),
                Err(error) => error == ContractError::DuplicateId && old(self)@.contains_key(id@)
                    && final(self).contracts.keys() == old(self).contracts.keys(),
            }),
    {
        if self.contracts.position(id.as_str()).is_some() {
            return Err(ContractError::DuplicateId);
        }
        let contract = SmartContract::new(owner, code, contract_type);
        let copy = contract.clone();
        self.contracts.insert(id, contract);
        Ok(copy)
    }

    /// Executes the command `input` on the contract `id`, and returns the
    /// answer; where there is no such contract, the answer says so.
    pub fn execute_contract(&mut self, id: &str, input: &str) -> (output: String)
        ensures
            (match old(self)@.get(id@) {
                Some(contract) => output@ == output_of(contract.state, input@) && final(self)@
                    == old(self)@.insert(
                    id@,
                    SmartContractView { state: state_after(contract.state, input@), ..contract },
                ),
                None => output@ == "Contract not found"@ && final(self)@ == old(self)@,
            }),
            final(self).contracts.keys() == old(self).contracts.keys(),
    {
        match self.contracts.position(id) {
            Some(i) => {
                let contract = self.contracts.value_at_mut(i);
                contract.execute(input)
            },
            None => "Contract not found".to_owned(),
        }
    }

    /// Verifies an ECDSA signature in DER encoding over a 32-byte message.
    pub fn verify_signature(&self, message: &[u8], sig: &[u8], pubkey: &PublicKey) -> (result:
        Result<(), ContractError>)
        ensures
            result == signature_verdict(message@, sig@, pubkey@),
    {
        if message.len() != DIGEST_LEN {
            return Err(ContractError::InvalidMessage);
        }
        if !der_signature_parses(sig) {
            return Err(ContractError::InvalidSignature);
        }
        if pubkey.verifies(message, sig) {
            Ok(())
        } else {
            Err(ContractError::VerificationFailed)
        }
    }

    /// Whether a contract with the identifier `id` exists: in the engine, or
    /// else in the durable store, of which `stored` says whether it holds
    /// the identifier.
    pub fn check_contract_exists(&self, id: &str, stored: bool) -> (exists: bool)
        ensures
            exists == (self@.contains_key(id@) || stored),
    {
        self.contracts.position(id).is_some() || stored
    }
}

/// The outcome of verifying `signature` over `message` under `public_key`:
/// the message must be 32 bytes long, the signature must be a DER-encoded
/// signature, and it must be valid; the first of these that fails gives the
/// error.
pub open spec fn signature_verdict(
    message: Seq<u8>,
    signature: Seq<u8>,
    public_key: Seq<u8>,
) -> Result<(), ContractError> {
    if message.len() != DIGEST_LEN {
        Err(ContractError::InvalidMessage)
    } else if !is_der_signature(signature) {
        Err(ContractError::InvalidSignature)
    } else if !ecdsa_verifies(message, signature, public_key) {
        Err(ContractError::VerificationFailed)
    } else {
        Ok(())
    }
}

/// Why the resource broker refused an operation.
#[derive(Clone, Copy, Debug, PartialEq, Eq, Structural)]
pub enum ResourceError {
    /// The GPU is reserved already.
    NotAvailable,
    /// The GPU is not reserved.
    AlreadyAvailable,
    /// No GPU is registered under the identifier.
    NotFound,
    /// No registered GPU is free and meets the requirements.
    NoSuitableResource,
}

impl ResourceError {
    /// A description of the error.
    pub fn message(&self) -> (text: String)
        ensures
            text@ == (match *self {
                ResourceError::NotAvailable => "GPU is not available"@,
                ResourceError::AlreadyAvailable => "GPU is already available"@,
                ResourceError::NotFound => "GPU not found"@,
                ResourceError::NoSuitableResource => "No suitable GPU available"@,
            }),
    {
        match self {
            ResourceError::NotAvailable => "GPU is not available".to_owned(),
            ResourceError::AlreadyAvailable => "GPU is already available".to_owned(),
            ResourceError::NotFound => "GPU not found".to_owned(),
            ResourceError::NoSuitableResource => "No suitable GPU available".to_owned(),
        }
    }
}

/// What a task needs of a GPU.
#[derive(Clone, Copy, Debug, PartialEq, Eq, Structural)]
pub struct GPURequirements {
    /// The least amount of video memory, in the unit of the advertisements.
    pub min_vram: u64,
    /// The least number of CUDA cores.
    pub min_cuda_cores: u32,
}

/// The advertisement of one GPU.
#[derive(Debug)]
pub struct GPUResourceContract {
    /// The key of the GPU's owner.
    pub owner: PublicKey,
    /// The model of the GPU.
    pub gpu_type: String,
    /// The amount of video memory, in a unit that the broker's users agree
    /// on; only the order of amounts is used.
    pub vram_capacity: u64,
    /// The number of CUDA cores.
    pub cuda_cores: u32,
    /// Whether the GPU is free.
    pub available: bool,
    /// The task that the GPU is reserved for.
    pub current_task: Option<String>,
}

/// An advertisement as a mathematical value.
pub struct GpuView {
    pub owner: Seq<u8>,
    pub gpu_type: Seq<char>,
    pub vram_capacity: nat,
    pub cuda_cores: nat,
    pub available: bool,
    pub current_task: Option<Seq<char>>,
}

impl View for GPUResourceContract {
    type V = GpuView;

    open spec fn view(&self) -> GpuView {
        GpuView {
            owner: self.owner@,
            gpu_type: self.gpu_type@,
            vram_capacity: self.vram_capacity as nat,
            cuda_cores: self.cuda_cores as nat,
            available: self.available,
            current_task: match self.current_task {
                Some(task) => Some(task@),
                None => None,
            },
        }
    }
}

/// Whether a GPU has the capacity that `requirements` asks for.
pub open spec fn has_capacity(gpu: GpuView, requirements: GPURequirements) -> bool {
    gpu.vram_capacity >= requirements.min_vram && gpu.cuda_cores >= requirements.min_cuda_cores
}

/// Whether a free GPU holds no task. A GPU that is not free may hold a task
/// or none: the broker reserves a GPU without naming a task.
pub open spec fn is_consistent(gpu: GpuView) -> bool {
    gpu.available ==> gpu.current_task is None
}

impl Clone for GPUResourceContract {
    fn clone(&self) -> (copy: Self)
        ensures
            copy@ == self@,
    {
        GPUResourceContract {
            owner: self.owner.clone(),
            gpu_type: self.gpu_type.clone(),
            vram_capacity: self.vram_capacity,
            cuda_cores: self.cuda_cores,
            available: self.available,
            current_task: match &self.current_task {
                Some(task) => Some(task.clone()),
                None => None,
            },
        }
    }
}

impl GPUResourceContract {
    /// The advertisement of a free GPU.
    pub fn new(owner: PublicKey, gpu_type: String, vram_capacity: u64, cuda_cores: u32) -> (gpu:
        Self)
        ensures
            gpu@ == (GpuView {
                owner: owner@,
                gpu_type: gpu_type@,
                vram_capacity: vram_capacity as nat,
                cuda_cores: cuda_cores as nat,
                available: true,
                current_task: None,
            }),
            is_consistent(gpu@),
    {
        GPUResourceContract {
            owner,
            gpu_type,
            vram_capacity,
            cuda_cores,
            available: true,
            current_task: None,
        }
    }

    /// Whether the GPU has the capacity that `requirements` asks for.
    pub fn meets_requirements(&self, requirements: &GPURequirements) -> (enough: bool)
        ensures
            enough == has_capacity(self@, *requirements),
    {
        self.vram_capacity >= requirements.min_vram && self.cuda_cores
            >= requirements.min_cuda_cores
    }

    /// Reserves the GPU for the task `task_id`; a GPU that is not free is
    /// left as it is.
    pub fn reserve(&mut self, task_id: String) -> (result: Result<(), ResourceError>)
        ensures
            (match result {
                Ok(_) => old(self).available && final(self)@ == (GpuView {
                    available: false,
                    current_task: Some(task_id@),
                    ..old(self)@
                }),
                Err(error) => error == ResourceError::NotAvailable && !old(self).available
                    && final(self)@ == old(self)@,
            }),
            is_consistent(old(self)@) ==> is_consistent(final(self)@),
    {
        if self.available {
            self.available = false;
            self.current_task = Some(task_id);
            Ok(())
        } else {
            Err(ResourceError::NotAvailable)
        }
    }

    /// Frees the GPU; a GPU that is free is left as it is.
    pub fn release(&mut self) -> (result: Result<(), ResourceError>)
        ensures
            (match result {
                Ok(_) => !old(self).available && final(self)@ == (GpuView {
                    available: true,
                    current_task: None,
                    ..old(self)@
                }),
                Err(error) => error == ResourceError::AlreadyAvailable && old(self).available
                    && final(self)@ == old(self)@,
            }),
            is_consistent(old(self)@) ==> is_consistent(final(self)@),
    {
        if !self.available {
            self.available = true;
            self.current_task = None;
            Ok(())
        } else {
            Err(ResourceError::AlreadyAvailable)
        }
    }
}

} // verus!
