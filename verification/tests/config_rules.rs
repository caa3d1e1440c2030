use taintlint::config::{
    strip_comments, ApachePqReadyTls, ApachePqVulnerableTls, DockerfileInsecureTlsEnv,
    HAProxyPqReadyTls, HAProxyPqVulnerableTls, NginxPqReadyTls, NginxPqVulnerableTls,
};
use taintlint::finding::{Finding, Language, Severity};

fn said(findings: &[Finding]) -> Vec<(usize, usize, String)> {
    findings.iter().map(|f| (f.line, f.column, f.description.clone())).collect()
}

fn lines_of(findings: &[Finding]) -> Vec<usize> {
    findings.iter().map(|f| f.line).collect()
}

#[test]
fn comments_are_blanked_in_place() {
    assert_eq!(strip_comments("a\n  # b\nc # d\n"), "a\n     \nc # d\n");
    assert_eq!(strip_comments("# é\r\nx"), "    \r\nx");
    assert_eq!(strip_comments(""), "");
    assert_eq!(strip_comments("#"), " ");
    assert_eq!(strip_comments("é # x"), "é # x");
}

#[test]
fn blanking_keeps_every_byte_offset() {
    let src = "a é\n\t# ünïcode comment\n#x\nlast # kept";
    let out = strip_comments(src);
    assert_eq!(out.len(), src.len());
    assert_eq!(out.find("last"), src.find("last"));
    assert_eq!(out.lines().count(), src.lines().count());
}

#[test]
fn nginx_directives_are_judged() {
    let src = "ssl_protocols TLSv1.2;\n# ssl_protocols TLSv1.1;\nssl_protocols TLSv1.2 TLSv1.3;\n  SSL_CIPHERS HIGH;\nssl_ciphers x25519mlkem768;\n";
    assert_eq!(
        said(&NginxPqVulnerableTls.check(src)),
        vec![
            (
                1,
                1,
                "ssl_protocols lacks TLSv1.3 — required for post-quantum key exchange (X25519MLKEM768)"
                    .to_string()
            ),
            (
                4,
                3,
                "ssl_ciphers uses only classical key exchange — consider enabling PQ-safe cipher suites via oqs-provider"
                    .to_string()
            ),
        ]
    );
}

#[test]
fn positions_are_those_of_the_commented_source() {
    let src = "# é\nssl_protocols TLSv1.2;\n";
    let found = NginxPqVulnerableTls.check(src);
    assert_eq!(found.len(), 1);
    assert_eq!((found[0].line, found[0].column), (2, 1));
    assert_eq!((found[0].end_line, found[0].end_column), (2, 23));
    assert_eq!(found[0].snippet, "ssl_protocols TLSv1.2;");
    assert_eq!(found[0].rule_id, "config/nginx-pq-vulnerable-tls");
    assert_eq!(found[0].severity, Severity::Medium);
}

#[test]
fn apache_directives_are_judged() {
    let src = "SSLProtocol -ALL +TLSv1.2\nSSLProtocol all -SSLv3\nSSLProtocol TLSv1.3\nSSLCipherSuite HIGH\nSSLCipherSuite MLKEM\n";
    assert_eq!(
        said(&ApachePqVulnerableTls.check(src)),
        vec![
            (
                1,
                1,
                "SSLProtocol lacks TLSv1.3 — required for post-quantum key exchange".to_string()
            ),
            (
                4,
                1,
                "SSLCipherSuite uses only classical key exchange — consider enabling PQ-safe cipher suites"
                    .to_string()
            ),
        ]
    );
}

#[test]
fn haproxy_directives_are_judged() {
    let src = "ssl-default-bind-options no-sslv3\nssl-default-bind-options ssl-min-ver TLSv1.3\nssl-default-bind-ciphers HIGH\nssl-default-bind-ciphersuites TLS_AES\nssl-default-bind-ciphersuites X25519MLKEM768\n";
    let found = HAProxyPqVulnerableTls.check(src);
    assert_eq!(lines_of(&found), vec![1, 3, 4]);
    assert_eq!(
        found[2].description,
        "ssl-default-bind-ciphersuites uses only classical key exchange — consider enabling PQ-safe cipher suites"
    );
}

#[test]
fn dockerfile_lines_are_judged() {
    let src = "FROM a\nENV NODE_TLS_REJECT_UNAUTHORIZED=0\nARG GIT_SSL_NO_VERIFY=true\n# ENV PYTHONHTTPSVERIFY=0\nENV SSL_CERT_FILE=/etc/cert\nRUN curl --insecure https://a.example\nRUN curl https://a.example\nENV CURL_CA_BUNDLE=\n";
    let found = DockerfileInsecureTlsEnv.check(src);
    assert_eq!(lines_of(&found), vec![2, 3, 8, 6]);
    assert_eq!(
        found[3].description,
        "Dockerfile RUN command disables TLS verification — containers will accept any certificate, enabling MITM attacks"
    );
    assert_eq!(DockerfileInsecureTlsEnv.info().cnsa2_deadline, Some("2033"));
}

#[test]
fn post_quantum_scans_read_what_is_left_of_the_source() {
    let src = "# ssl_ecdh_curve X25519MLKEM768;\nssl_ecdh_curve X25519;\n";
    let left = format!("{}\nssl_ecdh_curve X25519;\n", " ".repeat(32));
    assert_eq!(NginxPqReadyTls.scanned_text(src), left);
    assert_eq!(ApachePqReadyTls.scanned_text(src), left);
    assert_eq!(HAProxyPqReadyTls.scanned_text(src), left);
    assert_eq!(NginxPqReadyTls.info().id, "config/nginx-pq-ready-tls");
    assert_eq!(ApachePqReadyTls.info().language, Language::ApacheConf);
    assert_eq!(HAProxyPqReadyTls.info().cwe, None);
}
