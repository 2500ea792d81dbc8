use rust_file_manager::{FindConfig, MyFile};
use std::path::{Path, PathBuf};

fn accessible(dirs: &Vec<&str>) -> Vec<bool> {
    dirs.iter().map(|d| Path::new(d).is_dir()).collect()
}

#[test]
fn test_parse_dirs() {
    let dirs = vec!["."];
    let patterns = vec!["."];
    // all ok
    let cfg = FindConfig {
        dirs,
        patterns,
        output: None,
        size: None,
        command: None,
        replace: None,
        all: false,
    };
    let res = cfg.parse_dirs(&accessible(&cfg.dirs));
    assert!(res.is_ok());
    assert_eq!(res.unwrap().len(), 1);

    // one ok
    let cfg2 = FindConfig {
        dirs: vec![".", "/dev/null"],
        ..cfg
    };
    let res2 = cfg2.parse_dirs(&accessible(&cfg2.dirs));
    assert!(res2.is_ok());
    assert_eq!(res2.unwrap().len(), 1);

    let cfg3 = FindConfig {
        dirs: vec!["/dev/null"],
        ..cfg2
    };
    let res3 = cfg3.parse_dirs(&accessible(&cfg3.dirs));
    assert!(res3.is_err());
}

#[test]
fn test_parse_size() {
    let dirs = vec!["/dev/null"];
    let patterns = vec!["."];
    // expect some
    let size = Some("1");
    let cfg = FindConfig {
        dirs,
        patterns,
        output: None,
        size,
        command: None,
        replace: None,
        all: false,
    };
    let res = cfg.parse_size();
    assert!(res.is_some());

    // number should be positive
    let size = Some("-1");
    let cfg2 = FindConfig { size, ..cfg };
    let res2 = cfg2.parse_size();
    assert!(res2.is_none());

    // number should not be float
    let size = Some("1.1");
    let cfg3 = FindConfig { size, ..cfg2 };
    let res3 = cfg3.parse_size();
    assert!(res3.is_none());

    // number should be integer
    let size = Some("a");
    let cfg4 = FindConfig { size, ..cfg3 };
    let res4 = cfg4.parse_size();
    assert!(res4.is_none());
}

#[test]
fn test_parse_patterns() {
    let dirs = vec![".", ".."];
    let patterns = vec!["."];
    // all valid regex
    let cfg = FindConfig {
        dirs,
        patterns,
        output: None,
        size: None,
        command: None,
        replace: None,
        all: false,
    };
    let res = cfg.parse_patterns();
    assert!(res.is_ok());
    assert_eq!(res.unwrap().len(), 1);

    // some invalid regex
    let patterns = vec![".", ")"];
    let cfg2 = FindConfig { patterns, ..cfg };
    let res2 = cfg2.parse_patterns();
    assert!(res2.is_ok());
    assert_eq!(res2.unwrap().len(), 1);

    // no valid regex
    let patterns = vec![")"];
    let cfg3 = FindConfig { patterns, ..cfg2 };
    let res3 = cfg3.parse_patterns();
    assert!(res3.is_err());
}

#[test]
fn test_myfile() {
    // should work on file
    let path = PathBuf::from("/dev/null");
    let myfile = MyFile::from_path(&path);
    assert!(myfile.is_ok());

    // fail on directory
    let path = PathBuf::from(".");
    let myfile = MyFile::from_path(&path);
    assert!(myfile.is_err())
}
