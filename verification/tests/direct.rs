use dns_config::conf;
use dns_config::direct::{
    merge_domains, merge_nameservers, written_by_us, RESOLV_CONF, RESOLV_CONF_BACKUP,
    RESOLV_CONF_HEADER,
};
use dns_config::resolv_owner;
use dns_config::{DirectManager, FileAction, FilesSeen, OSConfig};

fn list(items: &[&str]) -> Vec<String> {
    items.iter().map(|s| s.to_string()).collect()
}

fn config(nameservers: &[&str], search_domains: &[&str]) -> OSConfig {
    OSConfig {
        nameservers: list(nameservers),
        search_domains: list(search_domains),
        match_domains: Vec::new(),
    }
}

fn seen(conf: Option<&str>, backup_exists: bool) -> FilesSeen {
    FilesSeen {
        conf_text: conf.map(String::from),
        conf_exists: conf.is_some(),
        backup_exists,
    }
}

/// The two files, as far as they exist.
#[derive(Clone, Debug, PartialEq)]
struct Disk {
    conf: Option<Vec<u8>>,
    backup: Option<Vec<u8>>,
}

impl Disk {
    fn look(&self) -> FilesSeen {
        FilesSeen {
            conf_text: self.conf.clone().and_then(|bytes| String::from_utf8(bytes).ok()),
            conf_exists: self.conf.is_some(),
            backup_exists: self.backup.is_some(),
        }
    }

    fn file(&mut self, path: &str) -> &mut Option<Vec<u8>> {
        if path == RESOLV_CONF {
            &mut self.conf
        } else {
            assert_eq!(path, RESOLV_CONF_BACKUP);
            &mut self.backup
        }
    }

    fn run(&mut self, actions: Vec<FileAction>) {
        for action in actions {
            match action {
                FileAction::Copy { from, to } => {
                    let bytes = self.file(&from).clone().unwrap();
                    *self.file(&to) = Some(bytes);
                }
                FileAction::Write { path, content } => {
                    *self.file(&path) = Some(content.into_bytes());
                }
                FileAction::Remove { path } => {
                    assert!(self.file(&path).is_some());
                    *self.file(&path) = None;
                }
            }
        }
    }

    fn set_dns(&mut self, cfg: &OSConfig) {
        let actions = DirectManager::new().set_dns(cfg, &self.look());
        self.run(actions);
    }

    fn close(&mut self) {
        let actions = DirectManager::new().close(&self.look());
        self.run(actions);
    }
}

#[test]
fn test_direct_manager_set_and_close() {
    // An original resolv.conf.
    let original = "nameserver 8.8.8.8\n";

    let cfg = OSConfig {
        nameservers: vec!["100.100.100.101".to_string()],
        search_domains: vec!["et.net.".to_string()],
        match_domains: vec!["et.net.".to_string()],
    };

    // Verify the config is well-formed.
    assert_eq!(cfg.nameservers.len(), 1);
    assert_eq!(cfg.search_domains.len(), 1);

    let mut disk = Disk { conf: Some(original.as_bytes().to_vec()), backup: None };
    let before = disk.clone();
    disk.set_dns(&cfg);
    assert_eq!(disk.backup, before.conf);
    assert_eq!(
        String::from_utf8(disk.conf.clone().unwrap()).unwrap(),
        "# Added by easytier\n\
         # Original resolv.conf backed up to /etc/resolv.conf.easytier.bak\n\
         nameserver 100.100.100.101\n\
         nameserver 8.8.8.8\n\
         search et.net\n"
    );
    disk.close();
    assert_eq!(disk, before);
}

#[test]
fn the_original_comes_back_after_any_number_of_calls() {
    for original in ["", "nameserver 1.1.1.1\nsearch lan\n", "# NetworkManager\n"] {
        let mut disk = Disk { conf: Some(original.as_bytes().to_vec()), backup: None };
        let before = disk.clone();
        disk.set_dns(&config(&["10.0.0.1"], &["a."]));
        disk.set_dns(&config(&[], &[]));
        disk.set_dns(&config(&["10.0.0.2", "10.0.0.3"], &["b"]));
        assert_ne!(disk, before);
        disk.close();
        assert_eq!(disk, before);
        disk.close();
        assert_eq!(disk, before);
    }
}

#[test]
fn a_file_that_is_not_text_comes_back_too() {
    let mut disk = Disk { conf: Some(b"nameserver 1.1.1.1\n\xff\n".to_vec()), backup: None };
    let before = disk.clone();
    disk.set_dns(&config(&["10.0.0.1"], &[]));
    assert_eq!(
        disk.conf,
        Some(
            b"# Added by easytier\n# Original resolv.conf backed up to /etc/resolv.conf.easytier.bak\nnameserver 10.0.0.1\n"
                .to_vec()
        )
    );
    disk.close();
    assert_eq!(disk, before);
}

#[test]
fn without_a_file_there_is_nothing_to_restore() {
    let mut disk = Disk { conf: None, backup: None };
    disk.set_dns(&config(&["10.0.0.1"], &[]));
    assert_eq!(disk.backup, None);
    let written = disk.clone();
    disk.close();
    assert_eq!(disk, written);
}

#[test]
fn an_older_backup_is_kept_and_restored() {
    let mut disk = Disk { conf: Some(b"new\n".to_vec()), backup: Some(b"old\n".to_vec()) };
    disk.set_dns(&config(&["10.0.0.1"], &[]));
    assert_eq!(disk.backup, Some(b"old\n".to_vec()));
    disk.close();
    assert_eq!(disk, Disk { conf: Some(b"old\n".to_vec()), backup: None });
}

#[test]
fn a_foreign_file_is_left_alone() {
    let mut disk = Disk {
        conf: Some(b"nameserver 9.9.9.9\n".to_vec()),
        backup: Some(b"nameserver 8.8.8.8\n".to_vec()),
    };
    let before = disk.clone();
    disk.close();
    assert_eq!(disk, before);
}

#[test]
fn a_missing_or_unreadable_file_is_replaced_by_the_backup() {
    for conf in [None, Some(b"\xff".to_vec())] {
        let mut disk = Disk { conf, backup: Some(b"nameserver 8.8.8.8\n".to_vec()) };
        disk.close();
        assert_eq!(disk, Disk { conf: Some(b"nameserver 8.8.8.8\n".to_vec()), backup: None });
    }
}

#[test]
fn actions_come_in_order() {
    let cfg = config(&["10.0.0.1"], &[]);
    let manager = DirectManager::new();
    let copy = FileAction::Copy {
        from: RESOLV_CONF.to_string(),
        to: RESOLV_CONF_BACKUP.to_string(),
    };
    let actions = manager.set_dns(&cfg, &seen(Some(""), false));
    assert_eq!(actions.len(), 2);
    assert_eq!(actions[0], copy);
    assert!(matches!(&actions[1], FileAction::Write { path, .. } if path == RESOLV_CONF));
    assert_eq!(manager.set_dns(&cfg, &seen(Some(""), true)).len(), 1);
    assert_eq!(manager.set_dns(&cfg, &seen(None, false)).len(), 1);

    let ours = manager.new_content(&cfg, &None);
    assert_eq!(
        manager.close(&seen(Some(ours.as_str()), true)),
        vec![
            FileAction::Copy {
                from: RESOLV_CONF_BACKUP.to_string(),
                to: RESOLV_CONF.to_string(),
            },
            FileAction::Remove { path: RESOLV_CONF_BACKUP.to_string() },
        ]
    );
    assert_eq!(manager.close(&seen(Some(ours.as_str()), false)), vec![]);
    assert_eq!(manager.close(&seen(Some("x"), true)), vec![]);
}

#[test]
fn own_output_is_not_taken_over() {
    let manager = DirectManager::default();
    let first = manager.new_content(&config(&["10.0.0.1"], &["a"]), &Some("search b\n".to_string()));
    assert!(written_by_us(&first));
    let cfg = config(&["10.0.0.2"], &[]);
    assert_eq!(manager.new_content(&cfg, &Some(first)), manager.new_content(&cfg, &None));
}

#[test]
fn what_we_wrote_is_told_by_its_first_line() {
    assert!(written_by_us(RESOLV_CONF_HEADER));
    assert!(!written_by_us("# Added by easytier"));
    assert!(!written_by_us(" # Added by easytier\n"));
    assert!(!written_by_us("# Added by easytier\r\n"));
}

#[test]
fn existing_entries_are_preserved() {
    let original = "  nameserver   8.8.8.8  # fast\r\nnameserver 10.0.0.1\nnameserver\t9.9.9.9\n\
                    nameserver \nsearch lan. corp\tlan\nsearch home\nsearch\nnameserver 8.8.4.4";
    let content = DirectManager::new()
        .new_content(&config(&["10.0.0.1"], &["et.net.."]), &Some(original.to_string()));
    assert_eq!(
        content,
        "# Added by easytier\n\
         # Original resolv.conf backed up to /etc/resolv.conf.easytier.bak\n\
         nameserver 10.0.0.1\n\
         nameserver 8.8.8.8  # fast\n\
         nameserver 8.8.4.4\n\
         search et.net lan corp home\n"
    );
    let (nameservers, domains) = conf::entries_of(&content);
    assert_eq!(nameservers, list(&["10.0.0.1", "8.8.8.8  # fast", "8.8.4.4"]));
    assert_eq!(domains, list(&["et.net", "lan", "corp", "home"]));
}

#[test]
fn nameservers_are_merged() {
    assert_eq!(
        merge_nameservers(&list(&["a", "a"]), &list(&["b", "a", "b", "c"])),
        list(&["a", "a", "b", "b", "c"])
    );
    assert_eq!(merge_nameservers(&list(&[]), &list(&[])), list(&[]));
}

#[test]
fn domains_are_merged() {
    assert_eq!(
        merge_domains(&list(&["a.", "a", "b"]), &list(&["b..", "c.", "c", "a"])),
        list(&["a", "a", "b", "c"])
    );
    assert_eq!(merge_domains(&list(&[]), &list(&["."])), list(&[""]));
}

#[test]
fn entries_are_read_line_by_line() {
    let (nameservers, domains) = conf::entries_of("Nameserver 1.1.1.1\n#nameserver 2.2.2.2\n\nsearchx y\n");
    assert_eq!(nameservers, list(&[]));
    assert_eq!(domains, list(&[]));
    let (nameservers, domains) = conf::entries_of("nameserver  fe80::1%eth0 \n\tsearch a\u{a0}b");
    assert_eq!(nameservers, list(&["fe80::1%eth0"]));
    assert_eq!(domains, list(&["a", "b"]));
}

#[test]
fn nothing_configured_and_nothing_kept_leaves_the_comments() {
    let content = DirectManager::new().new_content(&OSConfig::default(), &None);
    assert_eq!(
        content,
        "# Added by easytier\n# Original resolv.conf backed up to /etc/resolv.conf.easytier.bak\n"
    );
}

#[test]
fn written_files_have_no_owner() {
    let manager = DirectManager::new();
    for (cfg, conf) in [
        (config(&[], &[]), None),
        (config(&["10.0.0.1"], &["resolvconf"]), Some("# NetworkManager\n".to_string())),
        (config(&[], &["systemd-resolved"]), Some("nameserver 1.1.1.1\n".to_string())),
    ] {
        assert_eq!(resolv_owner(manager.new_content(&cfg, &conf).as_bytes()), "");
    }
}
