use so_server_rust::error_responses::{http_resonse_400, http_resonse_404, http_response_500_json};
use so_server_rust::responses::http_response_200;

#[test]
fn test_http_response_404() {
    let msg = "Página no encontrada";
    let response = http_resonse_404(msg);

    assert!(response.contains("404 Not Found"));
    assert!(response.contains("Content-Type: text/plain"));
    assert!(response.contains("\"status\" : 404"));
    assert!(response.contains(msg));
}

#[test]
fn test_http_response_400() {
    let msg = "Parámetro inválido";
    let response = http_resonse_400(msg);

    assert!(response.contains("404 Bad Request"));
    assert!(response.contains("\"status\" : 400"));
    assert!(response.contains(msg));
}

#[test]
fn test_http_response_500_json() {
    let msg = "Error interno del servidor";
    let response = http_response_500_json(msg);

    assert!(response.contains("500 Internal Server Error"));
    assert!(response.contains("application/json"));
    assert!(response.contains("\"status\":500"));
    assert!(response.contains(msg));
}

#[test]
fn test_http_response_200() {
    let msg = "Tarea existosa";
    let response = http_response_200(msg);

    assert!(response.contains("202 Accepted"));
    assert!(response.contains("Content-Type: application/json"));
    assert!(response.contains("\"status\":200"));
    assert!(response.contains(msg));
}

#[test]
fn response_200_is_rendered_exactly() {
    assert_eq!(
        http_response_200("ok"),
        "HTTP/1.0 202 Accepted\r\nContent-Type: application/json\r\nContent-Length: 29\r\n\r\n{\"status\":200,\"message\":\"ok\"}"
    );
}

#[test]
fn content_length_counts_bytes_not_characters() {
    let response = http_resonse_404("añó");
    let json = "{\"status\" : 404, \"error\" : \"añó\"}";
    assert_eq!(json.len(), 35);
    assert_eq!(
        response,
        format!("HTTP/1.0 404 Not Found\r\nContent-Length: 35\r\nContent-Type: text/plain\r\n\r\n{}", json)
    );
}

#[test]
fn response_400_keeps_its_status_line() {
    assert_eq!(
        http_resonse_400("x"),
        "HTTP/1.0 404 Bad Request\r\nContent-Length: 31\r\nContent-Type: text/plain\r\n\r\n{\"status\" : 400, \"error\" : \"x\"}"
    );
}

#[test]
fn response_500_is_rendered_exactly() {
    assert_eq!(
        http_response_500_json("x"),
        "HTTP/1.0 500 Internal Server Error\r\nContent-Type: application/json\r\nContent-Length: 28\r\n\r\n{\"status\":500,\"message\":\"x\"}"
    );
}
