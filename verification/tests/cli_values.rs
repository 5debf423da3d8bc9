use sfs_core::api_types::{FilterCol, FilterGroup, FilterGroupType, FilterOp, GetFilesOpts};
use sfs_core::cmd::{CmdExpiryParams, LsCommand};
use sfs_core::config::{CliConfig, LogLevel};
use sfs_core::dirtree::{get_absolute_path, join_paths, split_path, PrintDirTreeOpts};
use sfs_core::envelope::{accept_envelope, EnvelopeError};
use sfs_core::files::{get_file_ext, get_file_str};
use sfs_core::metadata::EncryptionMetadata;
use sfs_core::names::get_random_filename;
use sfs_core::paths;
use sfs_core::state::{ActiveToken, PersistentState};
use sfs_core::term::get_formatted_cols;
use sfs_core::tokens::{get_acp, AccessTokenPermission, PermissionChar, TokenError};
use sfs_core::uploads::{prepare_upload, UploadFileOpts};
use sfs_core::x2str::{bytes2str, duration2str, u64_to_string};

#[test]
fn absolute_paths_stand_as_they_are() {
    assert_eq!(get_absolute_path("/a/b", "/c"), "/a/b");
    assert_eq!(get_absolute_path("/", "/c"), "/");
}

#[test]
fn relative_paths_resolve_against_the_working_directory() {
    assert_eq!(get_absolute_path("a/b", "/"), "/a/b");
    assert_eq!(get_absolute_path("x", "/c/d"), "/c/d/x");
    assert_eq!(get_absolute_path("../x", "/c/d"), "/c/x");
    assert_eq!(get_absolute_path("..", "/c/d"), "/c");
    assert_eq!(get_absolute_path(".", "/c/d"), "/c/d");
    assert_eq!(get_absolute_path("..", "/"), "/");
    assert_eq!(get_absolute_path("a/./b", "/"), "/a/b");
    assert_eq!(get_absolute_path("a/", "/"), "/a");
}

#[test]
fn local_paths_expand_tilde_and_resolve_against_cwd() {
    assert_eq!(paths::get_absolute_path("~/notes.txt", "/work", "/home/u"), "/home/u/notes.txt");
    assert_eq!(paths::get_absolute_path("~", "/work", "/home/u"), "/home/u");
    assert_eq!(paths::get_absolute_path("~oddname", "/work", "/home/u"), "/work/~oddname");
    assert_eq!(paths::get_absolute_path("/etc/conf", "/work", "/home/u"), "/etc/conf");
    assert_eq!(paths::get_absolute_path("a/b", "/work", "/home/u"), "/work/a/b");
    assert_eq!(paths::get_absolute_path("../x", "/work/sub", "/home/u"), "/work/x");
    assert_eq!(paths::get_absolute_path("./a//b", "/work", "/home/u"), "/work/a/b");
}

#[test]
fn split_path_cuts_at_the_last_slash() {
    let (dir, file) = split_path("/a/b/c.txt");
    assert_eq!(dir, "/a/b/");
    assert_eq!(file, "c.txt");
    let (dir, file) = split_path("plain");
    assert_eq!(dir, "plain");
    assert_eq!(file, "");
}

#[test]
fn join_paths_trims_and_joins() {
    let parts = vec!["/a/".to_string(), " b ".to_string(), "/c/".to_string()];
    assert_eq!(join_paths(&parts), "/a/b/c");
    let empty: Vec<String> = Vec::new();
    assert_eq!(join_paths(&empty), "/");
    let parts = vec!["/root".to_string(), "".to_string(), "x".to_string()];
    assert_eq!(join_paths(&parts), "/root/x");
}

#[test]
fn file_extensions_follow_the_last_dot() {
    assert_eq!(get_file_ext("a.txt"), "txt");
    assert_eq!(get_file_ext("archive.tar.gz"), "gz");
    assert_eq!(get_file_ext("noext"), "noext");
}

#[test]
fn file_lines_carry_their_rendered_size() {
    assert_eq!(get_file_str("a/b", Some(1536)), "a/b (1.536kb)");
    assert_eq!(get_file_str("a/b", None), "a/b");
}

#[test]
fn byte_counts_render_in_decimal_units() {
    assert_eq!(bytes2str(0), "0.000b");
    assert_eq!(bytes2str(999), "999.000b");
    assert_eq!(bytes2str(1000), "1.000kb");
    assert_eq!(bytes2str(1536), "1.536kb");
    assert_eq!(bytes2str(123_456_789), "123.456mb");
    assert_eq!(bytes2str(5_000_000_000), "5.000gb");
    assert_eq!(bytes2str(2_500_000_000_000), "2.500tb");
}

#[test]
fn durations_render_with_their_units() {
    assert_eq!(duration2str(0), "0s");
    assert_eq!(duration2str(45), "45s");
    assert_eq!(duration2str(3600), "1h");
    assert_eq!(duration2str(90061), "1d1h1m1s");
    assert_eq!(duration2str(7 * 86400 + 30), "7d30s");
}

#[test]
fn numbers_render_in_decimal() {
    assert_eq!(u64_to_string(0), "0");
    assert_eq!(u64_to_string(7), "7");
    assert_eq!(u64_to_string(1234567890), "1234567890");
}

#[test]
fn cache_ttl_column_renders_or_flags_invalid() {
    assert_eq!(LsCommand::get_file_cache_duration_str(90061), "CacheTTL=1d1h1m1s");
    assert_eq!(LsCommand::get_file_cache_duration_str(u64::MAX), "INVALID_DURATION");
}

#[test]
fn formatted_columns_pad_each_column_to_its_widest_cell() {
    let data = vec!["a".to_string(), "bb".to_string(), "c".to_string()];
    assert_eq!(get_formatted_cols(&data, 2), "a    bb    \nc    ");
}

#[test]
fn config_defaults_and_login_uri() {
    let c = CliConfig::default();
    assert_eq!(c.get_base_url(), "https://api.simplefs.io");
    assert_eq!(
        c.get_gh_login_uri(),
        "https://github.com/login/oauth/authorize?client_id=Ov23li5rbT6pIfVXc7Rv&redirect_uri=https://api.simplefs.io/auth/gh-callback&scope=repo,user,user:email"
    );
    assert!(matches!(c.get_log_level(), LogLevel::Chirpy));
    assert_eq!(CliConfig::get_config_filepath(), "~/.sfs/config.toml");
}

#[test]
fn config_log_level_can_be_set() {
    let mut c = CliConfig::default();
    c.set_log_level(LogLevel::Stfu);
    assert!(matches!(c.get_log_level(), LogLevel::Stfu));
    assert_eq!(c.get_base_url(), "https://api.simplefs.io");
}

#[test]
fn state_working_directory_loses_trailing_slashes() {
    let mut s = PersistentState::default();
    assert_eq!(s.get_wd(), "/");
    s.set_wd("/a/b/");
    assert_eq!(s.get_wd(), "/a/b");
    s.set_wd("/");
    assert_eq!(s.get_wd(), "/");
    assert_eq!(PersistentState::get_state_filepath(), "~/.sfs/state.json");
}

#[test]
fn untitled_tags_count_upward() {
    let mut s = PersistentState::default();
    assert_eq!(s.get_untitled_token_tag(), "untitled_1");
    s.tokens.push(("untitled_1".to_string(), "tok-a".to_string()));
    s.tokens.push(("named".to_string(), "tok-b".to_string()));
    assert_eq!(s.get_untitled_token_tag(), "untitled_2");
}

#[test]
fn saved_tokens_are_found_by_tag() {
    let mut s = PersistentState::default();
    s.tokens.push(("work".to_string(), "tok-w".to_string()));
    assert_eq!(s.get_token("work"), Some("tok-w".to_string()));
    assert_eq!(s.get_token("missing"), None);
}

#[test]
fn active_token_labels() {
    assert_eq!(ActiveToken::RootAccessToken.label(), "RootAccessToken");
    assert_eq!(ActiveToken::Tag("work".to_string()).label(), "Tag(work)");
}

#[test]
fn permission_strings_parse_and_render() {
    let p = AccessTokenPermission::from_str("r").unwrap();
    assert_eq!(p.as_str(), "r");
    let p = AccessTokenPermission::from_str("crud").unwrap();
    assert_eq!(p.as_str(), "crud");
    assert_eq!(
        AccessTokenPermission::from_str("").unwrap_err(),
        TokenError::InvalidPermissionLength
    );
    assert_eq!(
        AccessTokenPermission::from_str("cruds").unwrap_err(),
        TokenError::InvalidPermissionLength
    );
    assert_eq!(
        AccessTokenPermission::from_str("x").unwrap_err(),
        TokenError::InvalidPermissionChar
    );
    assert_eq!(PermissionChar::Read.as_str(), "r");
    assert!(PermissionChar::from_char('q').is_err());
}

#[test]
fn acp_entries_join_permissions_and_pattern() {
    let p = AccessTokenPermission::from_str("r").unwrap();
    assert_eq!(get_acp(p, "/tmp/file"), "r:/tmp/file");
}

#[test]
fn random_filenames_have_the_expected_shape() {
    let a = get_random_filename();
    let b = get_random_filename();
    assert_eq!(a.chars().count(), 28);
    assert!(a.ends_with(".bin"));
    assert_ne!(a, b, "two draws should differ");
}

#[test]
fn expiry_params_default_to_thirty_minutes_from_now() {
    let unset = CmdExpiryParams { expires_at: None, ttl: None };
    assert!(unset.is_unset());
    assert_eq!(unset.get_expires_at(1000), 2800);
    let ttl = CmdExpiryParams { expires_at: None, ttl: Some(60) };
    assert_eq!(ttl.get_expires_at(1000), 1060);
    let fixed = CmdExpiryParams { expires_at: Some(5000), ttl: None };
    assert!(!fixed.is_unset());
    assert_eq!(fixed.get_expires_at(1000), 5000);
}

#[test]
fn get_files_opts_accumulates_filter_groups() {
    let mut opts = GetFilesOpts::new("/docs".to_string());
    assert_eq!(opts.dir_path, "/docs");
    assert_eq!(opts.filters.as_ref().unwrap().len(), 0);
    opts.add_filter_group(FilterGroup { type_: FilterGroupType::And, filters: Vec::new() });
    assert_eq!(opts.filters.as_ref().unwrap().len(), 1);
    let _ = (FilterCol::Name, FilterOp::Eq);
}

#[test]
fn default_print_opts() {
    let o = PrintDirTreeOpts::get_default_opts();
    assert_eq!(o.indent, 2);
    assert_eq!(o.level, i16::MAX);
    assert!(!o.print_note);
    assert!(o.file_counts.is_none());
    assert_eq!(o.cwd_dir_path, "");
}

#[test]
fn zipfile_metadata_marks_no_decryption() {
    let m = EncryptionMetadata::default_zipfile();
    assert!(!m.attempt_decryption);
    assert!(m.nonce.is_none());
    assert!(m.salt.is_none());
    assert!(m.block_size.is_none());
}

#[test]
fn upload_opts_take_the_default_buffer_size() {
    let o = UploadFileOpts::new("/tmp/f".to_string(), Some("pw".to_string()));
    assert_eq!(o.upload_filepath, "/tmp/f");
    assert_eq!(o.password.as_deref(), Some("pw"));
    assert!(!o.is_zip_file);
    assert_eq!(o.file_stream_read_buf_size, 256 * 1024);
}

#[test]
fn prepared_uploads_fill_encryption_metadata() {
    let metadata = sfs_core::metadata::UploadBlobMetadata {
        name: "f".to_string(),
        content_type: None,
        is_public: false,
        encryption: None,
        cache_max_age_seconds: Some(0),
        dir_path: "/".to_string(),
        force_write: false,
        deleted_at: None,
    };
    let opts = UploadFileOpts::new("/tmp/f".to_string(), Some("pw".to_string()));
    let p = prepare_upload(metadata.clone(), &opts, 1234).unwrap();
    assert!(p.encryptor.is_some());
    let e = p.metadata.encryption.unwrap();
    assert!(e.attempt_decryption);
    assert_eq!(e.salt.unwrap().len(), 16);
    assert_eq!(e.nonce.unwrap().len(), 24);
    assert_eq!(e.block_size, Some(256 * 1024));

    let plain_opts = UploadFileOpts::new("/tmp/f".to_string(), None);
    let p = prepare_upload(metadata.clone(), &plain_opts, 1234).unwrap();
    assert!(p.encryptor.is_none());
    assert!(p.metadata.encryption.is_none());

    let mut zip_opts = UploadFileOpts::new("/tmp/f.zip".to_string(), Some("pw".to_string()));
    zip_opts.is_zip_file = true;
    let p = prepare_upload(metadata.clone(), &zip_opts, 1234).unwrap();
    assert!(p.encryptor.is_none());
    assert!(!p.metadata.encryption.unwrap().attempt_decryption);
}

#[test]
fn encrypting_a_multipart_sized_source_is_refused_before_any_network_call() {
    let metadata = sfs_core::metadata::UploadBlobMetadata {
        name: "big".to_string(),
        content_type: None,
        is_public: false,
        encryption: None,
        cache_max_age_seconds: None,
        dir_path: "/".to_string(),
        force_write: false,
        deleted_at: None,
    };
    let opts = UploadFileOpts::new("/tmp/big".to_string(), Some("pw".to_string()));
    let err = match prepare_upload(metadata, &opts, 100 * 1024 * 1024) {
        Err(e) => e,
        Ok(_) => panic!("a multipart-sized encrypted upload must be refused"),
    };
    assert_eq!(err, sfs_core::errors::TransferError::UnsupportedCombination);
}

#[test]
fn an_empty_password_fails_encryption_setup() {
    let metadata = sfs_core::metadata::UploadBlobMetadata {
        name: "f".to_string(),
        content_type: None,
        is_public: false,
        encryption: None,
        cache_max_age_seconds: None,
        dir_path: "/".to_string(),
        force_write: false,
        deleted_at: None,
    };
    let opts = UploadFileOpts::new("/tmp/f".to_string(), Some(String::new()));
    let err = match prepare_upload(metadata, &opts, 100) {
        Err(e) => e,
        Ok(_) => panic!("an empty password must fail encryption setup"),
    };
    assert_eq!(err, sfs_core::errors::TransferError::EncryptionSetupFailure);
}

#[test]
fn envelope_accepts_only_success_with_data() {
    assert_eq!(accept_envelope(true, Some(7u32)), Ok(7u32));
    assert_eq!(accept_envelope(true, None::<u32>), Err(EnvelopeError::NullData));
    assert_eq!(accept_envelope(false, Some(7u32)), Err(EnvelopeError::HttpFailure));
    assert_eq!(accept_envelope(false, None::<u32>), Err(EnvelopeError::HttpFailure));
}

#[test]
fn byte_counts_handle_the_largest_value() {
    assert_eq!(bytes2str(u64::MAX), "18446744.073tb");
}
