use eucalypt::console::{ScrollingTextRenderer, BLACK, BLUE, RED, WHITE};
use eucalypt::idt::TimerState;
use eucalypt::keyboard::Keyboard;
use eucalypt::process::{ProcessState, ProcessTable, PCB};
use eucalypt::sched::{cr3_matches, pml4_to_phys, Process, ProcessScheduler, SchedState, SwitchOutcome};
use eucalypt::text::{colored, on_blue, red, Colorize, LineWriter};
use eucalypt::thread::{setup_stack, CpuContext, Priority, ScheduleOutcome, ThreadTable};
use eucalypt::tty::Tty;

#[test]
fn process_ids_are_consumed_even_on_failure() {
    let mut t = ProcessTable::new();
    assert_eq!(t.new_process(None, Some(0x1000)), Some(1));
    assert_eq!(t.new_process(Some(1), None), None);
    assert_eq!(t.new_process(Some(1), Some(0x2000)), Some(3));
    assert_eq!(t.get_process_count(), 2);
    assert_eq!(t.with_process(1, |p: &PCB| p.fd_table.len()), Some(3));
    assert_eq!(t.with_process(1, |p: &PCB| (p.fd_table[2].num, p.fd_table[2].device)), Some((2, 2)));
    assert_eq!(t.with_process(2, |p: &PCB| p.pid), None);
    assert_eq!(t.with_process(3, |p: &PCB| (p.parent, p.cr3, p.state)), Some((Some(1), 0x2000, ProcessState::Running)));
}

#[test]
fn process_threads_and_reaping() {
    let mut t = ProcessTable::new();
    let a = t.new_process(None, Some(0x1000)).unwrap();
    let b = t.new_process(Some(a), Some(0x2000)).unwrap();
    assert!(t.is_threadless(a));
    assert!(t.is_threadless(99));
    t.add_thread_to_process(a, 10);
    t.add_thread_to_process(a, 11);
    assert!(!t.is_threadless(a));
    assert_eq!(t.with_process(a, |p: &PCB| p.threads.clone()), Some(vec![10, 11]));
    t.remove_thread_from_process(a, 10);
    assert_eq!(t.with_process(a, |p: &PCB| p.state), Some(ProcessState::Running));
    // reaping a running process does nothing
    t.reap_process(a);
    assert_eq!(t.with_process(a, |p: &PCB| p.state), Some(ProcessState::Running));
    t.remove_thread_from_process(a, 11);
    assert_eq!(t.with_process(a, |p: &PCB| p.state), Some(ProcessState::Zombie));
    t.reap_process(a);
    assert_eq!(t.with_process(a, |p: &PCB| p.state), Some(ProcessState::Dead));
    t.collect_dead_processes();
    assert_eq!(t.get_process_count(), 1);
    assert_eq!(t.with_process(a, |p: &PCB| p.pid), None);
    assert_eq!(t.with_process(b, |p: &PCB| p.pid), Some(b));
    // a new process still gets a fresh id
    assert_eq!(t.new_process(None, Some(0x3000)), Some(3));
}

#[test]
fn process_update_in_place() {
    let mut t = ProcessTable::new();
    let a = t.new_process(None, Some(0x1000)).unwrap();
    let r = t.with_process_mut(a, |mut p: PCB| {
        p.cr3 = 0x5000;
        (p, 7)
    });
    assert_eq!(r, Some(7));
    assert_eq!(t.with_process(a, |p: &PCB| p.cr3), Some(0x5000));
    assert_eq!(t.with_process_mut(42, |p: PCB| (p, 0)), None);
}

#[test]
fn process_count_is_live_processes() {
    let mut t = ProcessTable::new();
    let a = t.new_process(None, Some(0x1000)).unwrap();
    let _b = t.new_process(None, Some(0x2000)).unwrap();
    assert_eq!(t.get_process_count(), 2);
    t.add_thread_to_process(a, 5);
    t.remove_thread_from_process(a, 5);
    assert_eq!(t.get_process_count(), 2);
    t.reap_process(a);
    assert_eq!(t.get_process_count(), 1);
    t.collect_dead_processes();
    assert_eq!(t.get_process_count(), 1);
}

#[test]
fn process_update_may_change_pid() {
    let mut t = ProcessTable::new();
    let a = t.new_process(None, Some(0x1000)).unwrap();
    let r = t.with_process_mut(a, |mut p: PCB| {
        p.pid = 77;
        (p, 1)
    });
    assert_eq!(r, Some(1));
    assert_eq!(t.with_process(a, |p: &PCB| p.pid), None);
    assert_eq!(t.with_process(77, |p: &PCB| p.cr3), Some(0x1000));
}

#[test]
fn thread_priorities_and_context() {
    assert_eq!(Priority::idle(), Priority(0));
    assert_eq!(Priority::low(), Priority(64));
    assert_eq!(Priority::normal(), Priority(128));
    assert_eq!(Priority::high(), Priority(192));
    assert_eq!(Priority::realtime(), Priority(255));
    let c = CpuContext::with_rsp(0x1234);
    assert_eq!((c.rsp, c.rip, c.rflags, c.rbx), (0x1234, 0, 0, 0));
    let d = CpuContext::default();
    assert_eq!(d.rsp, 0);
}

#[test]
fn thread_initial_stack_frame() {
    let (rsp, words) = setup_stack(0x10000, 0xAAAA, 0xBBBB);
    assert_eq!(rsp, 0x10000 - 160);
    let mut expected = vec![0u64; 13];
    expected.extend_from_slice(&[0xAAAA, 0, 0xBBBB, 0x08, 0x202, 0x10000, 0x10]);
    assert_eq!(words, expected);
}

#[test]
fn thread_round_robin_every_slice() {
    let mut t = ThreadTable::new();
    let stay = |rsp: u64| ScheduleOutcome { rsp, tss_rsp0: None, cr3: None };
    // nothing happens while the scheduler is off
    assert_eq!(t.schedule(0x1111), stay(0x1111));
    t.init_kernel_thread(0x1000, 0x8000);
    assert_eq!(t.get_current_thread(), Some(0));
    assert_eq!(t.new_thread(0x10000, 0x4000, 0x13F00, 0x1000), 1);
    assert_eq!(t.spawn_userspace_process(0x20000, 0x4000, 0x23F00, 0x5000), 2);
    assert_eq!(t.get_thread_count(), 3);
    assert_eq!(t.schedule(0x8000), stay(0x8000));
    t.enable_scheduler();
    for _ in 0..9 {
        assert_eq!(t.schedule(0x8000), stay(0x8000));
        assert_eq!(t.get_current_index(), 0);
    }
    assert_eq!(t.schedule(0x8000), ScheduleOutcome { rsp: 0x13F00, tss_rsp0: None, cr3: Some(0x1000) });
    assert_eq!(t.get_current_index(), 1);
    assert_eq!(t.get_current_thread(), Some(1));
    for _ in 0..9 {
        assert_eq!(t.schedule(0x13000), stay(0x13000));
    }
    assert_eq!(t.schedule(0x13000), ScheduleOutcome { rsp: 0x23F00, tss_rsp0: Some(0x24000), cr3: Some(0x5000) });
    assert_eq!(t.get_current_index(), 2);
    for _ in 0..9 {
        t.schedule(0x23000);
    }
    // back to the kernel thread, on the stack it was suspended on
    assert_eq!(t.schedule(0x23000), ScheduleOutcome { rsp: 0x8000, tss_rsp0: None, cr3: Some(0x1000) });
    assert_eq!(t.get_current_index(), 0);
    t.disable_scheduler();
    assert_eq!(t.schedule(0x9999), stay(0x9999));
}

#[test]
fn timer_tick_counts_and_schedules() {
    let mut t = ThreadTable::new();
    t.init_kernel_thread(0x1000, 0x8000);
    t.new_thread(0x10000, 0x4000, 0x13F00, 0x1000);
    t.enable_scheduler();
    let mut timer = TimerState::new();
    assert_eq!(timer.get_timer_ticks(), 0);
    for _ in 0..9 {
        let r = timer.apic_timer_interrupt_handler(&mut t, 0x8000);
        assert_eq!(r.rsp, 0x8000);
    }
    assert_eq!(timer.get_timer_ticks(), 9);
    assert_eq!(timer.get_dbg(), (2, 0, 0));
    let r = timer.apic_timer_interrupt_handler(&mut t, 0x8000);
    assert_eq!(r.rsp, 0x13F00);
    assert_eq!(timer.get_timer_ticks(), 10);
    assert_eq!(timer.get_dbg(), (2, 0, 1));
}

fn proc(pid: u64, rsp: u64, pml4: u64, priority: Priority) -> Option<Process> {
    Some(Process {
        pid,
        rsp,
        stack_base: 0,
        entry: 0,
        pml4,
        state: SchedState::Ready,
        priority,
        ticks_ready: 0,
        wake_at_tick: 0,
    })
}

#[test]
fn scheduler_page_table_addresses() {
    assert_eq!(pml4_to_phys(0xFFFF_8000_0010_0000), 0x10_0000);
    assert_eq!(pml4_to_phys(0x20_0000), 0x20_0000);
    assert!(cr3_matches(0x10_0018, 0x10_0000));
    assert!(!cr3_matches(0x20_0000, 0x10_0000));
}

#[test]
fn scheduler_picks_highest_priority_ready() {
    let mut s = ProcessScheduler::new();
    s.add_slot(proc(1, 0x1000, 0xFFFF_8000_0010_0000, Priority::normal()));
    s.add_slot(proc(2, 0x2000, 0x20_0000, Priority::low()));
    s.add_slot(None);
    s.add_slot(proc(4, 0x4000, 0x40_0000, Priority::high()));
    s.add_slot(proc(5, 0x5000, 0x50_0000, Priority::high()));
    s.init_scheduler();
    // slot 0 now runs; of the two high-priority slots the first after it wins
    assert_eq!(s.find_next_ready(0, true), Some(3));
    assert_eq!(s.find_next_ready(3, true), Some(4));
    let mut idle = ProcessScheduler::new();
    idle.add_slot(proc(1, 0x1000, 0x10_0000, Priority::idle()));
    assert_eq!(idle.find_next_ready(0, true), Some(0));
    assert_eq!(idle.find_next_ready(0, false), None);
    assert_eq!(ProcessScheduler::new().find_next_ready(0, true), None);
}

#[test]
fn scheduler_quantum_and_blocking() {
    let mut s = ProcessScheduler::new();
    s.add_slot(proc(1, 0x1000, 0xFFFF_8000_0010_0000, Priority::normal()));
    s.add_slot(proc(2, 0x2000, 0x20_0000, Priority::normal()));
    s.add_slot(proc(3, 0x3000, 0x30_0000, Priority::idle()));
    s.init_scheduler();
    // disabled: nothing changes
    assert_eq!(s.handle_timer_interrupt(0x1100), SwitchOutcome { rsp: 0x1100, cr3: None });
    s.enable_scheduler();
    for _ in 0..24 {
        assert_eq!(s.handle_timer_interrupt(0x1100), SwitchOutcome { rsp: 0x1100, cr3: None });
    }
    assert_eq!(s.handle_timer_interrupt(0x1100), SwitchOutcome { rsp: 0x2000, cr3: Some(0x20_0000) });
    for _ in 0..24 {
        s.handle_timer_interrupt(0x2200);
    }
    // slot 0, of normal priority, beats the idle slot 2
    assert_eq!(s.handle_timer_interrupt(0x2200), SwitchOutcome { rsp: 0x1100, cr3: Some(0x10_0000) });
    s.block_current();
    assert_eq!(s.handle_timer_interrupt(0x1200), SwitchOutcome { rsp: 0x2200, cr3: Some(0x20_0000) });
    s.block_current();
    // only the idle slot is left
    assert_eq!(s.handle_timer_interrupt(0x2300), SwitchOutcome { rsp: 0x3000, cr3: Some(0x30_0000) });
    s.unblock_process(1);
    s.unblock_process(77);
    for _ in 0..24 {
        s.handle_timer_interrupt(0x3300);
    }
    assert_eq!(s.handle_timer_interrupt(0x3300), SwitchOutcome { rsp: 0x1200, cr3: Some(0x10_0000) });
}

#[test]
fn scheduler_sleep_wakes_on_tick() {
    let mut s = ProcessScheduler::new();
    s.add_slot(proc(1, 0x1000, 0x10_0000, Priority::normal()));
    s.add_slot(proc(2, 0x2000, 0x20_0000, Priority::normal()));
    s.init_scheduler();
    s.enable_scheduler();
    s.sleep_proc_ms(20, 100);
    assert!(s.current_is_sleeping());
    // a sleeping current process is switched away from at once
    assert_eq!(s.handle_timer_interrupt(0x1100), SwitchOutcome { rsp: 0x2000, cr3: Some(0x20_0000) });
    // 20 ms at 100 Hz is 2 ticks: woken at tick 2, run at the end of the quantum
    for _ in 0..24 {
        assert_eq!(s.handle_timer_interrupt(0x2100), SwitchOutcome { rsp: 0x2100, cr3: None });
    }
    assert_eq!(s.handle_timer_interrupt(0x2100), SwitchOutcome { rsp: 0x1100, cr3: Some(0x10_0000) });
    assert!(!s.current_is_sleeping());
    s.sleep_proc_us(1, 100);
    assert!(s.current_is_sleeping());
    s.yield_process();
    assert!(!s.current_is_sleeping());
    s.sleep_current(5);
    assert!(s.current_is_sleeping());
}

#[test]
fn keyboard_translates_scancodes() {
    let mut k = Keyboard::new();
    assert_eq!(k.keyboard_irq_handler(0, 0x1E), None);
    assert_eq!(k.keyboard_irq_handler(1, 0x1E), Some(b'a'));
    assert_eq!(k.keyboard_irq_handler(1, 0x9E), None);
    assert_eq!(k.keyboard_irq_handler(1, 0x02), Some(b'1'));
    assert_eq!(k.keyboard_irq_handler(1, 0x2A), None);
    assert_eq!(k.keyboard_irq_handler(1, 0x1E), Some(b'A'));
    assert_eq!(k.keyboard_irq_handler(1, 0x02), Some(b'!'));
    assert_eq!(k.keyboard_irq_handler(1, 0xAA), None);
    assert_eq!(k.keyboard_irq_handler(1, 0x1E), Some(b'a'));
    assert_eq!(k.keyboard_irq_handler(1, 0x3A), None);
    assert_eq!(k.keyboard_irq_handler(1, 0xBA), None);
    assert_eq!(k.keyboard_irq_handler(1, 0x1E), Some(b'A'));
    assert_eq!(k.keyboard_irq_handler(1, 0x02), Some(b'1'));
    assert_eq!(k.keyboard_irq_handler(1, 0x36), None);
    assert_eq!(k.keyboard_irq_handler(1, 0x1E), Some(b'a'));
    assert_eq!(k.keyboard_irq_handler(1, 0xB6), None);
    assert_eq!(k.keyboard_irq_handler(1, 0x1C), Some(13));
    assert_eq!(k.keyboard_irq_handler(1, 0x0E), Some(8));
    assert_eq!(k.keyboard_irq_handler(1, 0x39), Some(b' '));
    assert_eq!(k.keyboard_irq_handler(1, 0x1D), None);
    assert_eq!(k.keyboard_irq_handler(1, 0x3B), None);
}

/// A PSF1 font of two-pixel-high glyphs: the glyph of byte `c` has the
/// rows `c` and `!c`, except the space, which is empty.
fn tiny_font() -> Vec<u8> {
    let mut f = vec![0x36, 0x04, 0x00, 0x02];
    for c in 0..=255u8 {
        if c == b' ' {
            f.push(0);
            f.push(0);
        } else {
            f.push(c);
            f.push(!c);
        }
    }
    f
}

/// A 40 by 20 framebuffer: three columns and two lines of text.
fn tiny_console() -> ScrollingTextRenderer {
    ScrollingTextRenderer::init(40, 20, 160, 32, tiny_font())
}

/// The characters of logical line `i` of the console.
fn line_text(r: &ScrollingTextRenderer, i: usize) -> Option<Vec<u8>> {
    let line = r.get_line(i)?;
    let mut out = Vec::new();
    let mut col = 0;
    while let Some(c) = line.get_char(col) {
        out.push(c.ch);
        col += 1;
    }
    Some(out)
}

fn px(r: &ScrollingTextRenderer, x: usize, y: usize) -> u32 {
    r.back_buffer()[y * r.pixels_per_row() + x]
}

#[test]
fn console_draws_glyphs() {
    let mut r = tiny_console();
    assert_eq!(r.pixels_per_row(), 40);
    assert_eq!(r.colors(), (WHITE, BLACK));
    assert!(r.back_buffer().iter().all(|p| *p == 0));
    assert_eq!(r.render_dirty(), Vec::<usize>::new());
    assert_eq!(r.write_global(b"A"), vec![0]);
    // 'A' = 0x41: pixels 1 and 7 of the top row, the others of the second
    assert_eq!(px(&r, 10, 10), BLACK);
    assert_eq!(px(&r, 11, 10), WHITE);
    assert_eq!(px(&r, 17, 10), WHITE);
    assert_eq!(px(&r, 10, 11), WHITE);
    assert_eq!(px(&r, 11, 11), BLACK);
    assert_eq!(px(&r, 17, 11), BLACK);
    // the next cell is a space
    assert_eq!(px(&r, 18, 10), BLACK);
    // nothing left to redraw
    assert_eq!(r.render_dirty(), Vec::<usize>::new());
}

#[test]
fn console_wraps_and_scrolls() {
    let mut r = tiny_console();
    // "ABC" fills line 0, "DEF" line 1; the wrap after F scrolls one line
    assert_eq!(r.write_global(b"ABCDEF"), vec![0, 1]);
    assert_eq!(line_text(&r, 0), Some(b"ABC".to_vec()));
    assert_eq!(line_text(&r, 1), Some(b"DEF".to_vec()));
    assert_eq!(line_text(&r, 2), Some(b"   ".to_vec()));
    assert_eq!(line_text(&r, 3), None);
    // screen row 0 now shows "DEF": 'D' = 0x44 sets pixels 1 and 5
    assert_eq!(px(&r, 10, 10), BLACK);
    assert_eq!(px(&r, 11, 10), WHITE);
    assert_eq!(px(&r, 15, 10), WHITE);
    // screen row 1 (pixel rows 14 and 15) is the new blank line
    assert_eq!(px(&r, 11, 14), BLACK);
    assert_eq!(r.flush_line(0), (10, 12));
    assert_eq!(r.flush_line(1), (14, 16));
    assert_eq!(r.flush_line(3), (20, 20));
}

#[test]
fn console_newline_tab_and_return() {
    let mut r = tiny_console();
    assert_eq!(r.write_global(b"\tA"), vec![0, 1]);
    // the tab's four spaces filled the three columns and one more, so 'A'
    // is in column 1 of the next line
    assert_eq!(px(&r, 19, 14), WHITE);
    assert_eq!(px(&r, 11, 14), BLACK);
    assert_eq!(px(&r, 11, 10), BLACK);
    let mut s = tiny_console();
    s.write_global(b"AB\rC");
    // 'C' = 0x43 overwrote 'A' in column 0: pixel 6 set, pixel 1 set
    assert_eq!(px(&s, 16, 10), WHITE);
    let mut t = tiny_console();
    t.write_global(b"\nA");
    assert_eq!(px(&t, 11, 14), WHITE);
}

#[test]
fn console_fill_screen() {
    let mut r = tiny_console();
    r.write_global(b"A");
    assert_eq!(r.fill_screen(0x0011_2233), 800);
    assert!(r.back_buffer()[..800].iter().all(|p| *p == 0x0011_2233));
    assert_eq!(r.back_buffer()[800], 0);
    assert_eq!(r.colors(), (WHITE, 0x0011_2233));
    assert_eq!(r.render_dirty(), vec![0, 1]);
    // the blanked cells are drawn on the new background
    assert_eq!(px(&r, 11, 10), 0x0011_2233);
}

#[test]
fn colored_text_restores_colors() {
    let mut r = tiny_console();
    red("A").print(&mut r);
    assert_eq!(r.colors(), (WHITE, BLACK));
    assert_eq!(r.render_dirty(), vec![0]);
    assert_eq!(px(&r, 11, 10), RED);
    assert_eq!(px(&r, 10, 10), BLACK);
    on_blue("A").print(&mut r);
    r.render_dirty();
    assert_eq!(px(&r, 18, 10), BLUE);
    assert_eq!(px(&r, 19, 10), WHITE);
    let c = "xy".colored(RED, BLUE);
    assert_eq!((c.text, c.fg, c.bg), ("xy", RED, BLUE));
    let d = colored("z", BLUE, RED);
    assert_eq!((d.fg, d.bg), (BLUE, RED));
}

#[test]
fn line_writer_keeps_512_bytes() {
    let mut w = LineWriter::new();
    w.write_str("abc");
    w.write_str("def");
    assert_eq!(w.finish(), b"abcdef");
    let long = "x".repeat(600);
    let mut v = LineWriter::new();
    v.write_str(&long);
    assert_eq!(v.finish().len(), 512);
    v.write_str("y");
    assert_eq!(v.finish().len(), 512);
    assert!(v.finish().iter().all(|b| *b == b'x'));
}

#[test]
fn tty_cooks_lines() {
    let mut con = tiny_console();
    let mut tty = Tty::new();
    let mut buf = [0u8; 8];
    // before initialisation nothing is taken or read
    tty.tty_handle_char(&mut con, b'a');
    assert_eq!(tty.tty_read_line(&mut buf), Some(0));
    tty.tty_init();
    assert_eq!(tty.tty_read_line(&mut buf), None);
    for ch in [b'h', b'i', 8, b'o', 13] {
        tty.tty_handle_char(&mut con, ch);
    }
    assert_eq!(tty.tty_read_line(&mut buf), Some(2));
    assert_eq!(&buf[..2], b"ho");
    // the echo: "hi", a backspace (drawn as a character), "o", then "\n> "
    assert_eq!(line_text(&con, 0), Some(vec![b'h', b'i', 8]));
    assert_eq!(line_text(&con, 1), Some(vec![b'o', b' ', b' ']));
    assert_eq!(tty.tty_read_line(&mut buf), None);
    for ch in b"hello\n" {
        tty.tty_handle_char(&mut con, *ch);
    }
    let mut small = [0u8; 3];
    assert_eq!(tty.tty_read_line(&mut small), Some(3));
    assert_eq!(&small, b"hel");
    let mut empty: [u8; 0] = [];
    assert_eq!(tty.tty_read_line(&mut empty), Some(0));
}

#[test]
fn tty_ignores_control_bytes_and_extra_backspace() {
    let mut con = tiny_console();
    let mut tty = Tty::new();
    tty.tty_init();
    for ch in [8u8, 0x7F, 1, 0x1B, b'x', 13] {
        tty.tty_handle_char(&mut con, ch);
    }
    let mut buf = [0u8; 4];
    assert_eq!(tty.tty_read_line(&mut buf), Some(1));
    assert_eq!(buf[0], b'x');
    // a line is at most 255 bytes
    for _ in 0..300 {
        tty.tty_handle_char(&mut con, b'z');
    }
    tty.tty_handle_char(&mut con, 13);
    let mut big = [0u8; 300];
    assert_eq!(tty.tty_read_line(&mut big), Some(255));
    tty.tty_write(&mut con, b"ok");
    tty.tty_write_str(&mut con, "ok");
}

/// A PSF2 header declaring glyphs far larger than the screen, of no bytes.
fn oversized_font() -> Vec<u8> {
    let mut f = vec![0x72, 0xb5, 0x4a, 0x86];
    f.resize(32, 0);
    f[8..12].copy_from_slice(&32u32.to_le_bytes());
    f[20..24].copy_from_slice(&0u32.to_le_bytes());
    f[24..28].copy_from_slice(&0x2000u32.to_le_bytes());
    f[28..32].copy_from_slice(&0x2000u32.to_le_bytes());
    f
}

#[test]
fn console_accepts_oversized_glyphs() {
    let r = ScrollingTextRenderer::init(40, 20, 160, 32, oversized_font());
    assert!(r.get_line(0).is_none());
    assert_eq!(r.flush_line(0), (10, 20));
    assert_eq!(r.flush_line(1), (20, 20));
}
