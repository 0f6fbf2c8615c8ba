#[test]
fn test_get_listening_ports() {
    let ports = portwatch::get_listening_ports().expect("Should get ports");
    println!("Found {} listening ports:", ports.len());
    for p in &ports {
        println!(
            "  Port {} - PID {} - {} - cwd: {:?}",
            p.port, p.pid, p.process_name, p.cwd
        );
    }
    // Should at least run without error
}
