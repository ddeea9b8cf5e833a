use crust::config::{config_dir_path, config_file_path, get_example_config, get_tmppath, help_text, tmp_path_for, tmp_root};
use crust::envvars::{envvar_file_contents, envvars_file, envvars_file_path, select_envvars};
use crust::error::Errors;
use crust::filesystem::{expand_home, format_fs_path, staged_path};
use crust::pack::{archive_path, compress, ArchiveError};
use crust::paths::{pop_path, push_path};
use crust::unpack::{decompress, restore_target, unpacked_dir};

fn pairs(v: &[(&str, &str)]) -> Vec<(String, String)> {
    v.iter().map(|(a, b)| (a.to_string(), b.to_string())).collect()
}

fn names(v: &[&str]) -> Vec<String> {
    v.iter().map(|s| s.to_string()).collect()
}

#[test]
fn push_path_like_pathbuf() {
    let cases = [("/tmp", "x"), ("/tmp/", "x"), ("", "x"), ("/tmp", "/etc"), ("a", ""), ("/", "b/c")];
    for (base, part) in cases {
        let mut p = std::path::PathBuf::from(base);
        p.push(part);
        assert_eq!(push_path(base, part), p.to_str().unwrap(), "{} {}", base, part);
    }
}

#[test]
fn pop_path_like_pathbuf() {
    for s in ["/a/b/c", "/a/b/", "/a", "/", "a", "", "a//b"] {
        let mut p = std::path::PathBuf::from(s);
        p.pop();
        assert_eq!(pop_path(s), p.to_str().unwrap(), "{}", s);
    }
    assert_eq!(pop_path("/home/u/file"), "/home/u");
}

#[test]
fn tmp_paths() {
    assert_eq!(tmp_root(), "/tmp/crust");
    assert_eq!(tmp_path_for("20240102_030405"), "/tmp/crust/20240102_030405");
    let t = get_tmppath();
    assert!(t.starts_with("/tmp/crust/"));
    assert!(t["/tmp/crust/".len()..].chars().all(|c| c.is_ascii_digit() || c == '_'));
    assert_eq!(t.len(), "/tmp/crust/".len() + 15);
}

#[test]
fn config_paths() {
    let d = config_dir_path("/home/u");
    assert_eq!(d, "/home/u/.config/crust");
    assert_eq!(config_file_path(&d), "/home/u/.config/crust/config.toml");
    assert_eq!(config_dir_path(""), ".config/crust");
}

#[test]
fn example_config_and_help() {
    let c = get_example_config();
    assert!(c.starts_with("# Example config\n[network]\nip_addr = \"localhost\"\nport = 5000\n"));
    assert!(c.ends_with("    # \"/etc/makepkg.conf\"\n]"));
    let h = help_text();
    assert!(h.starts_with("Usage:\n  crust command [options...] [<arg>] [<file>]\n"));
    assert!(h.ends_with("  crust connect"));
}

#[test]
fn home_expansion() {
    assert_eq!(expand_home("~/.config/nvim", "/home/u"), "/home/u/.config/nvim");
    assert_eq!(expand_home("/etc/makepkg.conf", "/home/u"), "/etc/makepkg.conf");
    assert_eq!(expand_home("~/a", ""), "/a");
    assert!(!format_fs_path("~/x").contains('~'));
}

#[test]
fn staging_paths() {
    assert_eq!(staged_path("/tmp/crust/t", "/home/u/.bashrc").as_deref(), Some("/tmp/crust/t/home/u/.bashrc"));
    assert_eq!(staged_path("/tmp/crust/t", "/etc/").as_deref(), Some("/tmp/crust/t/etc"));
    assert_eq!(staged_path("/tmp/crust/t", "relative/file"), None);
}

#[test]
fn archive_naming() {
    assert_eq!(archive_path("/home/u", "20240102_030405"), "/home/u/20240102_030405.tar.zst");
}

#[test]
fn compression_roundtrip() {
    let data: Vec<u8> = (0..5000u32).map(|i| (i % 251) as u8).collect();
    let frame = compress(&data).unwrap();
    assert_ne!(frame, data);
    assert_eq!(decompress(&frame).unwrap(), data);
    let empty = compress(&[]).unwrap();
    assert_eq!(decompress(&empty).unwrap(), Vec::<u8>::new());
}

#[test]
fn compressed_like_zstd_crate() {
    let data = b"some data some data some data".to_vec();
    assert_eq!(compress(&data).unwrap(), zstd::stream::encode_all(&data[..], 0).unwrap());
}

#[test]
fn decompress_accepts_zstd_crate_frames() {
    let frame = zstd::stream::encode_all(&[1u8, 2, 3][..], 3).unwrap();
    assert_eq!(decompress(&frame).unwrap(), vec![1u8, 2, 3]);
}

#[test]
fn decompress_rejects_garbage() {
    assert!(matches!(decompress(b"not zstd at all"), Err(ArchiveError::Decompress(_))));
}

#[test]
fn restore_targets() {
    let root = unpacked_dir("/tmp/crust/t");
    assert_eq!(root, "/tmp/crust/t/unpacked");
    let (dest, dir) = restore_target("/tmp/crust/t/unpacked/home/u/.bashrc", &root);
    assert_eq!(dest, "/home/u/.bashrc");
    assert_eq!(dir, "/home/u");
}

#[test]
fn law_restore_unpacked_entry() {
    for rel in ["etc/x", "home/u/.config/nvim/init.lua", ""] {
        let root = "/tmp/crust/20240101_000000/unpacked";
        let (dest, _) = restore_target(&push_path(root, rel), root);
        assert_eq!(dest, format!("/{}", rel));
    }
}

#[test]
fn envvar_selection() {
    let vars = pairs(&[("HOME", "/home/u"), ("EDITOR", "vim"), ("TERM", "xterm"), ("PATH", "/bin")]);
    let wanted = names(&["TERM", "EDITOR", "MISSING"]);
    let chosen = select_envvars(&vars, &wanted);
    assert_eq!(chosen, pairs(&[("EDITOR", "vim"), ("TERM", "xterm")]));
    assert_eq!(envvar_file_contents(&chosen), "EDITOR=vim\nTERM=xterm\n");
    assert_eq!(envvars_file(&vars, &wanted), "EDITOR=vim\nTERM=xterm\n");
    assert_eq!(envvars_file(&vars, &names(&[])), "");
    assert_eq!(envvars_file_path("/tmp/crust/t"), "/tmp/crust/t/envvars.crust");
}

#[test]
fn law_selected_vars_exact() {
    let vars = pairs(&[("A", "1"), ("B", "2"), ("C", "3")]);
    let wanted = names(&["C", "A"]);
    let chosen = select_envvars(&vars, &wanted);
    for v in &vars {
        assert_eq!(chosen.contains(v), wanted.contains(&v.0));
    }
    for c in &chosen {
        assert!(vars.contains(c) && wanted.contains(&c.0));
    }
}

#[test]
fn errors_start_empty() {
    let _e = Errors::new();
    Errors::add_path_error();
}

#[test]
fn datetime_stamp_shape() {
    let d = crust::clock::get_datetime();
    assert_eq!(d.len(), 15);
    let b = d.as_bytes();
    assert_eq!(b[8], b'_');
    assert!(b.iter().enumerate().all(|(i, c)| i == 8 || c.is_ascii_digit()));
    let month: u32 = d[4..6].parse().unwrap();
    assert!((1..=12).contains(&month));
    let hour: u32 = d[9..11].parse().unwrap();
    assert!(hour <= 23);
}
