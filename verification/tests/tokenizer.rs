use combiner::{get_bpe, TokenizationScheme, Tokenizer};

#[test]
fn each_known_name_gives_its_scheme() {
    assert_eq!(TokenizationScheme::from_name("o200k_base"), TokenizationScheme::O200kBase);
    assert_eq!(TokenizationScheme::from_name("cl100k_base"), TokenizationScheme::Cl100kBase);
    assert_eq!(TokenizationScheme::from_name("p50k_base"), TokenizationScheme::P50kBase);
    assert_eq!(TokenizationScheme::from_name("p50k_edit"), TokenizationScheme::P50kEdit);
    assert_eq!(TokenizationScheme::from_name("r50k_base"), TokenizationScheme::R50kBase);
}

#[test]
fn names_are_read_without_regard_to_case() {
    assert_eq!(TokenizationScheme::from_name("O200K_BASE"), TokenizationScheme::O200kBase);
    assert_eq!(TokenizationScheme::from_name("P50k_Edit"), TokenizationScheme::P50kEdit);
    assert_eq!(TokenizationScheme::from_name("GPT2"), TokenizationScheme::R50kBase);
}

#[test]
fn gpt2_is_another_name_for_r50k_base() {
    assert_eq!(TokenizationScheme::from_name("gpt2"), TokenizationScheme::R50kBase);
}

#[test]
fn unknown_name_falls_back_to_the_default_scheme() {
    assert_eq!(TokenizationScheme::from_name("bogus_scheme"), TokenizationScheme::Cl100kBase);
    assert_eq!(TokenizationScheme::from_name(""), TokenizationScheme::Cl100kBase);
    assert_eq!(TokenizationScheme::from_name("p50k_base "), TokenizationScheme::Cl100kBase);
    assert_eq!(TokenizationScheme::from_name("ＣL100K"), TokenizationScheme::Cl100kBase);
    let tokenizer = get_bpe("bogus_scheme");
    assert!(tokenizer.is_ok());
    assert_eq!(tokenizer.unwrap().scheme(), TokenizationScheme::Cl100kBase);
}

#[test]
fn each_scheme_has_its_canonical_name() {
    assert_eq!(TokenizationScheme::O200kBase.name(), "o200k_base");
    assert_eq!(TokenizationScheme::Cl100kBase.name(), "cl100k_base");
    assert_eq!(TokenizationScheme::P50kBase.name(), "p50k_base");
    assert_eq!(TokenizationScheme::P50kEdit.name(), "p50k_edit");
    assert_eq!(TokenizationScheme::R50kBase.name(), "r50k_base");
}

#[test]
fn loaded_tokenizer_remembers_its_scheme() {
    let tokenizer = Tokenizer::load(TokenizationScheme::P50kEdit).unwrap();
    assert_eq!(tokenizer.scheme(), TokenizationScheme::P50kEdit);
    let tokenizer = get_bpe("R50K_BASE").unwrap();
    assert_eq!(tokenizer.scheme(), TokenizationScheme::R50kBase);
}

#[test]
fn p50k_base_counts_four_tokens_in_each_sample() {
    let tokenizer = get_bpe("p50k_base").unwrap();
    assert_eq!(tokenizer.encode("Content of file 1").unwrap().len(), 4);
    assert_eq!(tokenizer.encode("Content of file 2").unwrap().len(), 4);
    assert_eq!(tokenizer.encode("Content of file 3").unwrap().len(), 4);
    assert_eq!(tokenizer.encode("").unwrap().len(), 0);
}

#[test]
fn encoding_is_that_of_the_encoder_with_special_tokens() {
    let tokenizer = get_bpe("cl100k_base").unwrap();
    let reference = tiktoken_rs::cl100k_base().unwrap();
    let text = "fn main() { println!(\"hi\"); } <|endoftext|>";
    assert_eq!(tokenizer.encode(text).unwrap(), reference.encode_with_special_tokens(text));
    assert_ne!(tokenizer.encode(text).unwrap(), reference.encode_ordinary(text));
    assert_eq!(tokenizer.encode("hello world").unwrap(), vec![15339, 1917]);
}

#[test]
fn schemes_encode_differently() {
    let text = "The quick brown fox jumps over the lazy dog 1234567890";
    let newer = get_bpe("o200k_base").unwrap().encode(text).unwrap();
    let older = get_bpe("r50k_base").unwrap().encode(text).unwrap();
    assert_ne!(newer, older);
}
