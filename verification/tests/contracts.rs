use cognichain::crypto::PublicKey;
use cognichain::crypto::SecretKey;
use cognichain::smart_contract::AIInferenceContract;
use cognichain::smart_contract::AIModel;
use cognichain::smart_contract::AITask;
use cognichain::smart_contract::ContractError;
use cognichain::smart_contract::ContractManager;
use cognichain::smart_contract::ContractType;
use cognichain::smart_contract::SmartContract;
use cognichain::string_map::StringMap;

fn owner() -> PublicKey {
    SecretKey::from_slice(&[0xcd; 32]).expect("a secret key").public_key()
}

fn miner_terms() -> ContractType {
    ContractType::MinerRegistration { gpu_type: String::from("3060 RTX"), ram_capacity: 32 }
}

fn inference_terms() -> ContractType {
    ContractType::AIInference(AIInferenceContract::new(
        owner(),
        AIModel::ObjectDetection,
        String::from("8GB"),
        16,
    ))
}

fn state_of(contract: &SmartContract) -> Vec<(String, String)> {
    (0..contract.state.len())
        .map(|i| (contract.state.key_at(i).clone(), contract.state.value_at(i).clone()))
        .collect()
}

fn pairs(entries: &[(&str, &str)]) -> Vec<(String, String)> {
    entries.iter().map(|(k, v)| (String::from(*k), String::from(*v))).collect()
}

#[test]
fn new_contract_has_empty_state() {
    let contract = SmartContract::new(owner(), vec![1, 2, 3], miner_terms());
    assert_eq!(contract.owner, owner());
    assert_eq!(contract.code, vec![1, 2, 3]);
    assert_eq!(contract.state.len(), 0);
    match contract.contract_type {
        ContractType::MinerRegistration { gpu_type, ram_capacity } => {
            assert_eq!(gpu_type, "3060 RTX");
            assert_eq!(ram_capacity, 32);
        }
        other => panic!("unexpected kind: {:?}", other),
    }
}

#[test]
fn set_then_get_returns_the_value() {
    let mut manager = ContractManager::new();
    manager
        .deploy_contract(String::from("c1"), owner(), Vec::new(), miner_terms())
        .expect("a new identifier");
    assert_eq!(manager.execute_contract("c1", "set a 1"), "Set operation completed");
    assert_eq!(manager.execute_contract("c1", "get a"), "1");
}

#[test]
fn set_replaces_the_value_of_a_key() {
    let mut contract = SmartContract::new(owner(), Vec::new(), miner_terms());
    assert_eq!(contract.execute("set a 1"), "Set operation completed");
    assert_eq!(contract.execute("set b 2"), "Set operation completed");
    assert_eq!(contract.execute("set a 3"), "Set operation completed");
    assert_eq!(contract.execute("get a"), "3");
    assert_eq!(contract.execute("get b"), "2");
    assert_eq!(state_of(&contract), pairs(&[("a", "3"), ("b", "2")]));
}

#[test]
fn get_of_a_missing_key_says_so_and_changes_nothing() {
    let mut contract = SmartContract::new(owner(), Vec::new(), miner_terms());
    assert_eq!(contract.execute("get a"), "Key not found");
    contract.execute("set a 1");
    assert_eq!(contract.execute("get A"), "Key not found");
    assert_eq!(contract.execute("get"), "Invalid operation");
    assert_eq!(state_of(&contract), pairs(&[("a", "1")]));
}

#[test]
fn commands_are_split_at_any_white_space() {
    let mut contract = SmartContract::new(owner(), Vec::new(), miner_terms());
    assert_eq!(contract.execute("  set \t key\n value  "), "Set operation completed");
    assert_eq!(contract.execute("\u{3000}get\u{a0}key "), "value");
    assert_eq!(state_of(&contract), pairs(&[("key", "value")]));
}

#[test]
fn other_shapes_are_invalid_operations() {
    let mut contract = SmartContract::new(owner(), Vec::new(), miner_terms());
    for input in [
        "",
        "   ",
        "set",
        "set a",
        "set a 1 2",
        "get a b",
        "get a b c",
        "SET a 1",
        "Get a",
        "put a 1",
        "del a",
        "sett a 1",
        "a set 1",
    ] {
        assert_eq!(contract.execute(input), "Invalid operation", "{:?}", input);
    }
    assert_eq!(contract.state.len(), 0);
}

#[test]
fn keys_and_values_may_be_the_command_words() {
    let mut contract = SmartContract::new(owner(), Vec::new(), miner_terms());
    assert_eq!(contract.execute("set get set"), "Set operation completed");
    assert_eq!(contract.execute("get get"), "set");
    assert_eq!(contract.execute("get set"), "Key not found");
}

#[test]
fn deploy_twice_fails_with_duplicate_id() {
    let mut manager = ContractManager::new();
    let first = manager
        .deploy_contract(String::from("c1"), owner(), vec![7], miner_terms())
        .expect("a new identifier");
    assert_eq!(first.state.len(), 0);
    assert_eq!(first.code, vec![7]);
    assert_eq!(first.owner, owner());
    manager.execute_contract("c1", "set a 1");
    let second = manager.deploy_contract(String::from("c1"), owner(), vec![8], inference_terms());
    assert_eq!(second.err(), Some(ContractError::DuplicateId));
    assert_eq!(manager.contracts.len(), 1);
    assert_eq!(manager.execute_contract("c1", "get a"), "1");
    let stored = manager.contracts.value_at(0);
    assert_eq!(stored.code, vec![7]);
}

#[test]
fn deployed_contracts_keep_their_order_and_their_own_state() {
    let mut manager = ContractManager::new();
    for id in ["b", "a", "c"] {
        manager
            .deploy_contract(String::from(id), owner(), Vec::new(), miner_terms())
            .expect("a new identifier");
    }
    assert_eq!(manager.contracts.len(), 3);
    assert_eq!(manager.contracts.key_at(0), "b");
    assert_eq!(manager.contracts.key_at(1), "a");
    assert_eq!(manager.contracts.key_at(2), "c");
    manager.execute_contract("a", "set k in-a");
    manager.execute_contract("c", "set k in-c");
    assert_eq!(manager.execute_contract("a", "get k"), "in-a");
    assert_eq!(manager.execute_contract("b", "get k"), "Key not found");
    assert_eq!(manager.execute_contract("c", "get k"), "in-c");
}

#[test]
fn executing_on_a_missing_contract_says_so() {
    let mut manager = ContractManager::new();
    assert_eq!(manager.execute_contract("c1", "set a 1"), "Contract not found");
    manager
        .deploy_contract(String::from("c1"), owner(), Vec::new(), miner_terms())
        .expect("a new identifier");
    assert_eq!(manager.execute_contract("c2", "get a"), "Contract not found");
    assert_eq!(manager.execute_contract("", "get a"), "Contract not found");
    assert_eq!(manager.execute_contract("c1", "get a"), "Key not found");
}

#[test]
fn contract_exists_in_the_engine_or_in_the_store() {
    let mut manager = ContractManager::new();
    assert!(!manager.check_contract_exists("c1", false));
    assert!(manager.check_contract_exists("c1", true));
    manager
        .deploy_contract(String::from("c1"), owner(), Vec::new(), miner_terms())
        .expect("a new identifier");
    assert!(manager.check_contract_exists("c1", false));
    assert!(manager.check_contract_exists("c1", true));
    assert!(!manager.check_contract_exists("c2", false));
}

#[test]
fn inference_contract_answers_tasks() {
    let mut contract = SmartContract::new(owner(), Vec::new(), inference_terms());
    let answer = contract.execute_ai_task(AITask::Inference {
        model: AIModel::ImageClassification,
        input_data: vec![1, 2],
    });
    assert_eq!(answer, Ok(String::from("Inference completed for ImageClassification model")));
    let answer = contract.execute_ai_task(AITask::TrainingContribution {
        model: AIModel::NaturalLanguageProcessing,
        training_data: Vec::new(),
    });
    assert_eq!(
        answer,
        Ok(String::from(
            "Training data contribution received for NaturalLanguageProcessing model"
        ))
    );
    assert_eq!(contract.state.len(), 0);
}

#[test]
fn inference_terms_answer_for_the_model_of_the_task() {
    let mut terms =
        AIInferenceContract::new(owner(), AIModel::ImageClassification, String::from("any"), 4);
    assert_eq!(terms.state.len(), 0);
    assert_eq!(terms.gpu_requirements, "any");
    assert_eq!(terms.ram_requirements, 4);
    let answer = terms.execute(AITask::Inference {
        model: AIModel::ObjectDetection,
        input_data: Vec::new(),
    });
    assert_eq!(answer, Ok(String::from("Inference completed for ObjectDetection model")));
    assert_eq!(terms.model, AIModel::ImageClassification);
}

#[test]
fn task_copy_gets_the_same_answer() {
    let task = AITask::TrainingContribution {
        model: AIModel::ObjectDetection,
        training_data: vec![1, 2, 3],
    };
    let copy = task.clone();
    match &copy {
        AITask::TrainingContribution { model, training_data } => {
            assert_eq!(*model, AIModel::ObjectDetection);
            assert_eq!(*training_data, vec![1, 2, 3]);
        }
        other => panic!("unexpected task: {:?}", other),
    }
    let mut contract = SmartContract::new(owner(), Vec::new(), inference_terms());
    assert_eq!(contract.execute_ai_task(task), contract.execute_ai_task(copy));
}

#[test]
fn other_contracts_take_no_tasks() {
    let mut contract = SmartContract::new(owner(), Vec::new(), miner_terms());
    let answer = contract.execute_ai_task(AITask::Inference {
        model: AIModel::ImageClassification,
        input_data: Vec::new(),
    });
    assert_eq!(answer, Err(ContractError::UnsupportedOperation));
}

#[test]
fn models_have_their_names() {
    assert_eq!(AIModel::ImageClassification.name(), "ImageClassification");
    assert_eq!(AIModel::NaturalLanguageProcessing.name(), "NaturalLanguageProcessing");
    assert_eq!(AIModel::ObjectDetection.name(), "ObjectDetection");
}

#[test]
fn signature_of_a_request_is_verified() {
    let manager = ContractManager::new();
    let secret = SecretKey::from_slice(&[0xcd; 32]).expect("a secret key");
    let message = [0xab; 32];
    let signature = secret.sign(&message);
    assert_eq!(manager.verify_signature(&message, &signature, &owner()), Ok(()));
}

#[test]
fn message_of_wrong_length_is_invalid() {
    let manager = ContractManager::new();
    let secret = SecretKey::from_slice(&[0xcd; 32]).expect("a secret key");
    let signature = secret.sign(&[0xab; 32]);
    assert_eq!(
        manager.verify_signature(&[0xab; 31], &signature, &owner()),
        Err(ContractError::InvalidMessage)
    );
    assert_eq!(
        manager.verify_signature(&[0xab; 33], &[], &owner()),
        Err(ContractError::InvalidMessage)
    );
    assert_eq!(manager.verify_signature(&[], &signature, &owner()), Err(ContractError::InvalidMessage));
}

#[test]
fn signature_that_is_no_der_is_invalid() {
    let manager = ContractManager::new();
    let secret = SecretKey::from_slice(&[0xcd; 32]).expect("a secret key");
    let signature = secret.sign(&[0xab; 32]);
    for bad in [&[][..], &[0x30, 0x00][..], &signature[1..], &[0u8; 64][..]] {
        assert_eq!(
            manager.verify_signature(&[0xab; 32], bad, &owner()),
            Err(ContractError::InvalidSignature)
        );
    }
}

#[test]
fn signature_for_another_message_or_key_fails_verification() {
    let manager = ContractManager::new();
    let secret = SecretKey::from_slice(&[0xcd; 32]).expect("a secret key");
    let signature = secret.sign(&[0xab; 32]);
    assert_eq!(
        manager.verify_signature(&[0xac; 32], &signature, &owner()),
        Err(ContractError::VerificationFailed)
    );
    let other = SecretKey::from_slice(&[0x11; 32]).expect("a secret key").public_key();
    assert_eq!(
        manager.verify_signature(&[0xab; 32], &signature, &other),
        Err(ContractError::VerificationFailed)
    );
}

#[test]
fn contract_errors_describe_themselves() {
    assert_eq!(ContractError::DuplicateId.message(), "Contract with this ID already exists");
    assert_eq!(
        ContractError::UnsupportedOperation.message(),
        "This contract does not support AI tasks"
    );
    assert_eq!(ContractError::InvalidMessage.message(), "Invalid message");
    assert_eq!(ContractError::InvalidSignature.message(), "Invalid signature format");
    assert_eq!(ContractError::VerificationFailed.message(), "Verification failed");
}

#[test]
fn contract_copies_are_independent() {
    let mut contract = SmartContract::new(owner(), vec![1], inference_terms());
    contract.execute("set a 1");
    let mut copy = contract.clone();
    copy.execute("set a 2");
    copy.execute("set b 3");
    assert_eq!(contract.execute("get a"), "1");
    assert_eq!(contract.execute("get b"), "Key not found");
    assert_eq!(copy.execute("get a"), "2");
    assert_eq!(copy.code, vec![1]);
}

#[test]
fn string_map_keeps_the_order_of_first_insertion() {
    let mut map: StringMap<String> = StringMap::new();
    assert_eq!(map.len(), 0);
    assert_eq!(map.position("a"), None);
    assert_eq!(map.insert(String::from("b"), String::from("1")), None);
    assert_eq!(map.insert(String::from("a"), String::from("2")), None);
    assert_eq!(map.insert(String::from("c"), String::from("3")), None);
    assert_eq!(map.insert(String::from("b"), String::from("4")), Some(String::from("1")));
    assert_eq!(map.len(), 3);
    assert_eq!(map.position("b"), Some(0));
    assert_eq!(map.position("a"), Some(1));
    assert_eq!(map.position("c"), Some(2));
    assert_eq!(map.position("d"), None);
    assert_eq!(map.key_at(0), "b");
    assert_eq!(map.value_at(0), "4");
    assert_eq!(map.value_at(2), "3");
    map.value_at_mut(1).push('!');
    assert_eq!(map.value_at(1), "2!");
    let copy = map.clone();
    assert_eq!(copy.len(), 3);
    assert_eq!(copy.key_at(1), "a");
    assert_eq!(copy.value_at(1), "2!");
}
