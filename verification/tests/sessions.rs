//! The session and the drawing of pictures.
use cliphist_tui::display::{
    clear_sequence, detect_graphics, flag, graphics_cache, image_viewer, is_set, kitty_cache_path,
    thumbnail_call, thumbnail_fallback, Graphics,
};
use cliphist_tui::session::{
    fzf_args, last_id_path, port_from, random_port, watcher_script, WaitStep, WindowWait,
};

#[test]
fn the_window_is_waited_for_at_most_fifty_times() {
    let mut wait = WindowWait::new();
    let mut sleeps = 0;
    while wait.waiting() {
        let size = if sleeps % 2 == 0 { None } else { Some((34, 100)) };
        assert_eq!(wait.look(size), WaitStep::Sleep);
        sleeps += 1;
    }
    assert_eq!(sleeps, 50);
}

#[test]
fn a_window_of_35_by_25_is_enough() {
    let mut wait = WindowWait::new();
    assert_eq!(wait.look(Some((35, 24))), WaitStep::Sleep);
    assert_eq!(wait.look(Some((34, 25))), WaitStep::Sleep);
    assert_eq!(wait.look(Some((35, 25))), WaitStep::Ready);
}

#[test]
fn ports_are_in_range() {
    assert_eq!(port_from(0), 10000);
    assert_eq!(port_from(49999), 59999);
    assert_eq!(port_from(50000), 10000);
    assert_eq!(port_from(u16::MAX), 25535);
    let ports: Vec<u16> = (0..64).map(|_| random_port()).collect();
    assert!(ports.iter().all(|p| (10000..60000).contains(p)));
    assert!(ports.iter().any(|p| *p != ports[0]));
}

#[test]
fn the_watcher_script() {
    let (exe, port) = ("/usr/bin/cliphist-tui", 12345);
    assert_eq!(last_id_path(port), "/dev/shm/shorinclip_last_id_12345");
    let expected = format!(
        "for i in {{1..10}}; do \
            CURRENT_ID=$(cliphist list | head -n 1 | cut -f1); \
            LAST_ID=$(cat /dev/shm/shorinclip_last_id_{port} 2>/dev/null); \
            if [ -n \"$CURRENT_ID\" ] && [ \"$CURRENT_ID\" != \"$LAST_ID\" ]; then \
                echo \"$CURRENT_ID\" > /dev/shm/shorinclip_last_id_{port}; \
                curl -s -X POST -d 'reload({exe} list)' http://localhost:{port} & \
                break; \
            fi; \
            sleep 0.2; \
        done"
    );
    assert_eq!(watcher_script(exe, port), expected);
    assert!(expected.contains(&last_id_path(port)));
    assert_ne!(last_id_path(12345), last_id_path(1234));
}

#[test]
fn the_arguments_of_fzf() {
    let args = fzf_args("/x", 10001);
    assert_eq!(
        args,
        vec![
            "--ansi",
            "--listen",
            "10001",
            "--bind=ctrl-r:reload(/x list)",
            "--bind=ctrl-x:execute-silent(/x delete {1})+reload(/x list)",
            "--bind=alt-x:execute-silent(/x delete-all)+reload(/x list)",
            "--bind=ctrl-o:execute-silent(/x open {1})",
            "--bind=ctrl-e:execute-silent(/x open {1})",
            "--prompt=󰅍 > ",
            "--header=C^-X: Delete | Alt+X: D-All | C^-R: Reload | C^-O/E: Open | Enter/C^-F: Paste",
            "--color=header:italic:yellow,prompt:blue,pointer:blue",
            "--info=hidden",
            "--no-sort",
            "--layout=reverse",
            "--with-nth=2..",
            "--delimiter=\t",
            "--preview-window=down:60%,wrap",
            "--preview=/x preview {1}",
            "--bind=enter:execute-silent(/x copy {1})+accept",
            "--bind=ctrl-f:execute-silent(/x copy {1})+accept",
            "--bind=ctrl-l:execute-silent(/x copy {1})+accept",
            "--bind=ctrl-h:execute-silent(/x copy {1})+accept",
        ]
    );
}

#[test]
fn kitty_is_known_by_its_name() {
    assert_eq!(kitty_cache_path("foot", "0"), "/dev/shm/shorinclip_kitty_foot_0");
    assert_eq!(detect_graphics("xterm-kitty", None), Graphics { icat: true, native: true });
    assert_eq!(detect_graphics("foot", None), Graphics { icat: false, native: false });
    assert_eq!(
        detect_graphics("xterm-kitty", Some("")),
        Graphics { icat: false, native: false }
    );
}

#[test]
fn the_cache_is_read_back() {
    for icat in [false, true] {
        for native in [false, true] {
            let g = Graphics { icat, native };
            assert_eq!(detect_graphics("foot", Some(&graphics_cache(g))), g);
        }
    }
    assert_eq!(
        graphics_cache(Graphics { icat: true, native: false }),
        "export ENABLE_ICAT=1; export IS_NATIVE_KITTY=0"
    );
    assert!(is_set(&flag(true)));
    assert!(!is_set(&flag(false)));
    assert!(!is_set(""));
}

#[test]
fn gifs_are_drawn_by_kitty_itself() {
    let g = Graphics { icat: true, native: true };
    let v = image_viewer(g, "image/gif", Some("40"), Some("10"));
    assert!(v.from_tty);
    assert_eq!(v.call.program, "kitty");
    assert_eq!(
        v.call.args,
        vec!["icat", "--transfer-mode=file", "--image-id=10", "--place=40x10@0x0"]
    );
}

#[test]
fn other_pictures_are_drawn_by_chafa() {
    let g = Graphics { icat: true, native: false };
    let v = image_viewer(g, "image/gif", None, Some("10"));
    assert!(!v.from_tty);
    assert_eq!(v.call.program, "chafa");
    assert_eq!(v.call.args, vec!["-f", "kitty", "--animate=off", "--size=80x10"]);
    let g = Graphics { icat: false, native: true };
    let v = image_viewer(g, "image/gif", Some("40"), None);
    assert!(!v.from_tty);
    assert_eq!(v.call.program, "chafa");
    assert_eq!(v.call.args, vec!["--animate=off", "--size=40x24"]);
}

#[test]
fn thumbnails_of_videos() {
    assert!(thumbnail_call("/v.mp4", "/c/1.png", true).is_none());
    let call = thumbnail_call("/v.mp4", "/c/1.png", false).unwrap();
    assert_eq!(call.program, "ffmpegthumbnailer");
    assert_eq!(call.args, vec!["-i", "/v.mp4", "-o", "/c/1.png", "-s", "0", "-t", "0"]);
    assert!(thumbnail_fallback("/v", true, Some(1)).is_none());
    for (exists, len) in [(true, Some(0)), (true, None), (false, Some(1)), (false, None)] {
        assert_eq!(thumbnail_fallback("/v", exists, len).unwrap(), "Video: /v (No thumbnail)");
    }
}

#[test]
fn pictures_are_deleted_where_they_can_be_drawn() {
    for native in [false, true] {
        let shown = clear_sequence(Graphics { icat: true, native });
        assert_eq!(shown.unwrap(), b"\x1B_Ga=d,d=A\x1B\\");
        assert!(clear_sequence(Graphics { icat: false, native }).is_none());
    }
}
