use deepdecipher::cli::ServerConfig;
use deepdecipher::data_type::{DataType, DataTypeDiscriminants, DataTypeError};
use deepdecipher::fetching::{after_failure, ExplainerModel, RetryDecision, ShapeError, RETRY_LIMIT};
use deepdecipher::logging::{
    first_log_index, log_file_path, log_init_config, log_setup, next_log_index_step, LogFileProbe,
    LogIndexStep, LogLevel,
};
use deepdecipher::metadata::{Metadata, MetadataObject};
use deepdecipher::neuron_index::NeuronIndex;
use deepdecipher::text::{decimal_string, parse_u32, split_str, str_equals, substring};
use deepdecipher::token_dictionary::TokenDictionary;
use deepdecipher::token_search::{TokenSearch, TokenSearchError, TokenSearchType};
use deepdecipher::urls::{model_url, neuron_page_url, neuron_path, small_url, xl_url, ModelUrlError};

fn gpt2_small() -> Metadata {
    Metadata::from_stored(
        String::from("gpt2-small"),
        12,
        3072,
        String::from("gelu"),
        124_000_000,
        String::from("webtext"),
    )
}

#[test]
fn decimal_numerals() {
    assert_eq!(decimal_string(0), "0");
    assert_eq!(decimal_string(7), "7");
    assert_eq!(decimal_string(1024), "1024");
    assert_eq!(decimal_string(u64::MAX), "18446744073709551615");
}

#[test]
fn u32_parsing_matches_std() {
    for text in ["0", "42", "+42", "007", "4294967295", "4294967296", "", "+", "-1", "1 ", "x1", "１"] {
        assert_eq!(parse_u32(text), text.parse::<u32>().ok(), "{text}");
    }
}

#[test]
fn split_matches_std() {
    for (text, pattern) in [
        ("a<hr>b<hr><hr>c", "<hr>"),
        ("<hr>", "<hr>"),
        ("", "<hr>"),
        ("no rule here", "<hr>"),
        ("aaa", "aa"),
        ("xyx", "x"),
    ] {
        let expected: Vec<String> = text.split(pattern).map(str::to_owned).collect();
        assert_eq!(split_str(text, pattern), expected, "{text}");
    }
}

#[test]
fn string_helpers() {
    assert!(str_equals("abc", "abc"));
    assert!(!str_equals("abc", "abd"));
    assert_eq!(substring("häßlich", 1, 4), "äßl");
}

#[test]
fn data_type_names_and_arguments() {
    assert_eq!(DataTypeDiscriminants::Neuroscope.as_str(), "Neuroscope");
    assert_eq!(DataTypeDiscriminants::from_name("NeuronStore"), Some(DataTypeDiscriminants::NeuronStore));
    assert_eq!(DataTypeDiscriminants::from_name("neuronstore"), None);
    let store = DataType::NeuronStore { similarity_threshold_bits: 0.5f32.to_bits() };
    assert_eq!(store.as_str(), "NeuronStore");
    assert_eq!(store.discriminant(), DataTypeDiscriminants::NeuronStore);
    assert_eq!(store.args(), 0.5f32.to_bits().to_le_bytes().to_vec());
    assert_eq!(DataType::Json.args(), Vec::<u8>::new());
}

#[test]
fn stored_data_types_read_back() {
    for data_type in [
        DataType::Neuroscope,
        DataType::NeuronExplainer,
        DataType::Neuron2Graph,
        DataType::NeuronStore { similarity_threshold_bits: 0x3f00_0000 },
        DataType::NeuronStore { similarity_threshold_bits: u32::MAX },
        DataType::Json,
    ] {
        assert_eq!(DataType::from_raw(data_type.as_str(), &data_type.args()), Ok(data_type));
    }
}

#[test]
fn stored_data_type_errors() {
    assert_eq!(
        DataType::from_raw("Unknown", &[]),
        Err(DataTypeError::UnexpectedDataType(String::from("Unknown")))
    );
    assert_eq!(
        DataType::from_raw("Json", &[1]),
        Err(DataTypeError::UnexpectedArguments(DataTypeDiscriminants::Json))
    );
    assert_eq!(
        DataType::from_raw("NeuronStore", &[1, 2, 3]),
        Err(DataTypeError::WrongArgumentLength(DataTypeDiscriminants::NeuronStore))
    );
    assert_eq!(
        DataType::from_raw("NeuronStore", &[0, 0, 0, 0x3f]),
        Ok(DataType::NeuronStore { similarity_threshold_bits: 0x3f00_0000 })
    );
}

#[test]
fn token_search_types() {
    assert_eq!(TokenSearchType::Activating.to_str(), "activating");
    assert_eq!(TokenSearchType::Important.to_string(), "important");
    assert_eq!(TokenSearchType::list_from_str("activating"), Ok(vec![TokenSearchType::Activating]));
    assert_eq!(
        TokenSearchType::list_from_str("any"),
        Ok(vec![TokenSearchType::Activating, TokenSearchType::Important])
    );
    assert_eq!(
        TokenSearchType::list_from_str("none"),
        Err(TokenSearchError::InvalidSearchType(String::from("none")))
    );
    for t in [TokenSearchType::Activating, TokenSearchType::Important] {
        assert_eq!(TokenSearchType::list_from_str(t.to_str()), Ok(vec![t]));
    }
}

#[test]
fn token_searches_parse() {
    let search = TokenSearch::parse("important: the").unwrap();
    assert_eq!(search.token, " the");
    assert_eq!(search.search_types, vec![TokenSearchType::Important]);
    let search: TokenSearch = "any:x".parse().unwrap();
    assert_eq!(search.token, "x");
    assert_eq!(search.search_types.len(), 2);
    assert_eq!(TokenSearch::parse("activating").unwrap_err(), TokenSearchError::NotSearchTypeColonToken);
    assert_eq!(TokenSearch::parse("a:b:c").unwrap_err(), TokenSearchError::NotSearchTypeColonToken);
    assert_eq!(
        TokenSearch::parse("some:token").unwrap_err(),
        TokenSearchError::InvalidSearchType(String::from("some"))
    );
}

#[test]
fn written_token_search_reads_back() {
    for t in [TokenSearchType::Activating, TokenSearchType::Important] {
        let text = format!("{}:{}", t.to_str(), "tok en");
        let search = TokenSearch::parse(&text).unwrap();
        assert_eq!(search.search_types, vec![t]);
        assert_eq!(search.token, "tok en");
    }
}

#[test]
fn token_dictionary_numbers_tokens() {
    let dictionary = TokenDictionary::new(vec![
        String::from("a"),
        String::from("b"),
        String::from("a"),
        String::from("c"),
    ]);
    assert_eq!(dictionary.tokens().len(), 4);
    assert_eq!(dictionary.token_index("a"), Some(2));
    assert_eq!(dictionary.token_index("b"), Some(1));
    assert_eq!(dictionary.token_index("d"), None);
    assert_eq!(dictionary.index("c"), 3);
    assert_eq!(dictionary.token(1), "b");
    assert_eq!(
        dictionary.token_indices(),
        vec![(String::from("b"), 1), (String::from("a"), 2), (String::from("c"), 3)]
    );
    for i in 0..4u32 {
        let token = dictionary.token(i).clone();
        let number = dictionary.token_index(&token).unwrap();
        assert_eq!(dictionary.token(number), &token);
    }
}

#[test]
fn explainer_addresses() {
    let index = NeuronIndex { layer: 5, neuron: 131 };
    let small = "https://openaipublic.blob.core.windows.net/neuron-explainer/gpt2_small_data/explanations/5/131.jsonl";
    let xl = "https://openaipublic.blob.core.windows.net/neuron-explainer/data/explanations/5/131.jsonl";
    assert_eq!(small_url(index), small);
    assert_eq!(xl_url(index), xl);
    assert_eq!(model_url("gpt2-small", index), Ok(String::from(small)));
    assert_eq!(model_url("gpt2-xl", index), Ok(String::from(xl)));
    assert_eq!(
        model_url("solu-1l", index),
        Err(ModelUrlError::UnsupportedModel(String::from("solu-1l")))
    );
}

#[test]
fn neuroscope_and_graph_locations() {
    let index = NeuronIndex { layer: 9, neuron: 5596 };
    assert_eq!(neuron_page_url("solu-12l", index), "https://neuroscope.io/solu-12l/9/5596.html");
    assert_eq!(neuron_path("graphs", index), "graphs/9_5596/graph");
    assert_eq!(neuron_path("graphs/", index), "graphs/9_5596/graph");
    assert_eq!(neuron_path("", index), "9_5596/graph");
}

#[test]
fn explainer_model_shapes() {
    let small = gpt2_small();
    assert_eq!(ExplainerModel::Small.check_shape(&small), Ok(()));
    assert_eq!(ExplainerModel::Xl.check_shape(&small), Err(ShapeError::WrongNumLayers(12)));
    let mut odd = gpt2_small();
    odd.layer_size = 2048;
    assert_eq!(ExplainerModel::Small.check_shape(&odd), Err(ShapeError::WrongLayerSize(2048)));
    assert_eq!(ExplainerModel::Xl.num_layers(), 48);
    assert_eq!(ExplainerModel::Xl.layer_size(), 6400);
}

#[test]
fn failed_fetches_are_retried_five_times() {
    let mut retries = 0;
    let mut attempts = 1;
    loop {
        match after_failure(retries) {
            RetryDecision::Retry(next) => {
                assert_eq!(next, retries + 1);
                retries = next;
                attempts += 1;
            }
            RetryDecision::GiveUp => break,
        }
    }
    assert_eq!(retries, RETRY_LIMIT);
    assert_eq!(attempts, 6);
}

#[test]
fn log_files_are_numbered() {
    assert_eq!(log_file_path("logs", 3), "logs/3.log");
    assert_eq!(log_file_path("logs/", 0), "logs/0.log");
    let mut index = first_log_index();
    let taken = [true, true, false];
    let chosen = loop {
        let probe = if taken[index as usize] { LogFileProbe::Exists } else { LogFileProbe::NotFound };
        match next_log_index_step(index, probe) {
            LogIndexStep::Use(i) => break i,
            LogIndexStep::Probe(i) => index = i,
            other => panic!("unexpected step {other:?}"),
        }
    };
    assert_eq!(chosen, 2);
    assert_eq!(next_log_index_step(7, LogFileProbe::Failed), LogIndexStep::Fail);
    assert_eq!(next_log_index_step(u32::MAX, LogFileProbe::Exists), LogIndexStep::Exhausted);
}

#[test]
fn logging_setup_follows_config() {
    let config = ServerConfig::new(
        String::from("data.db"),
        String::from("localhost"),
        8080,
        Some(String::from("logs")),
        None,
    );
    assert_eq!(config.database_path(), "data.db");
    assert_eq!(config.url(), "localhost");
    assert_eq!(config.port(), 8080);
    assert_eq!(config.log_path(), Some("logs"));
    assert_eq!(config.num_workers(), None);
    let setup = log_init_config(&config);
    assert_eq!(setup.file_dir, Some(String::from("logs")));
    assert_eq!(setup.stdout_level, LogLevel::Info);
    assert_eq!(setup.file_level, LogLevel::Debug);
    assert_eq!(setup.max_level, LogLevel::Trace);
    assert_eq!(log_setup(None).file_dir, None);
}

#[test]
fn metadata_object_keeps_services() {
    let object = MetadataObject::new(gpt2_small(), vec![String::from("metadata")]);
    assert_eq!(object.available_services, vec![String::from("metadata")]);
    assert_eq!(object.metadata.num_total_neurons, 12 * 3072);
}
