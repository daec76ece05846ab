//! The description of the programming interface.
use vstd::prelude::*;

verus! {

/// The programming interface in the notation of OpenAPI, as JSON.
pub const OPENAPI: &'static str = r##"{
    "openapi": "3.0.3",
    "info": {
        "title": "VPN Manager API",
        "version": "0.1.0"
    },
    "servers": [{"url": "/vpnman"}],
    "security": [{"basicAuth": []}],
    "paths": {
        "/api/templates": {
            "get": {
                "summary": "List OpenVPN templates",
                "responses": {"200": {"description": "Envelope containing templates"}}
            }
        },
        "/api/cas": {
            "get": {
                "summary": "List certificate authorities",
                "responses": {"200": {"description": "Envelope containing CAs"}}
            }
        },
        "/api/configs": {
            "post": {
                "summary": "Issue an OpenVPN config",
                "description": "If ca_id is omitted or blank, the configured default CA ID is used.",
                "requestBody": {
                    "required": true,
                    "content": {
                        "application/json": {
                            "schema": {"$ref": "#/components/schemas/IssueConfigRequest"},
                            "example": {
                                "template_id": "template-id",
                                "ca_id": "ca-id",
                                "client_name": "laptop-01",
                                "tags": ["laptop", "team=engineering"],
                                "parameters": {
                                    "proto": "udp",
                                    "server_host": "vpn.example.com",
                                    "server_port": "1194"
                                }
                            }
                        }
                    }
                },
                "responses": {"200": {"description": "Envelope containing generated profile and id"}}
            }
        },
        "/api/profiles": {
            "get": {
                "summary": "List OpenVPN profiles",
                "responses": {"200": {"description": "Envelope containing profile metadata"}}
            }
        },
        "/api/profiles/{id}": {
            "get": {
                "summary": "Retrieve an OpenVPN profile",
                "parameters": [{"name": "id", "in": "path", "required": true, "schema": {"type": "string"}}],
                "responses": {"200": {"description": "Envelope containing profile text and metadata"}}
            }
        }
    },
    "components": {
        "securitySchemes": {
            "basicAuth": {
                "type": "http",
                "scheme": "basic"
            }
        },
        "schemas": {
            "Envelope": {
                "type": "object",
                "properties": {
                    "success": {"type": "boolean"},
                    "error_code": {"type": "string"},
                    "error_message": {"type": "string"},
                    "data": {}
                }
            },
            "IssueConfigRequest": {
                "type": "object",
                "required": ["template_id", "client_name"],
                "properties": {
                    "template_id": {"type": "string"},
                    "ca_id": {"type": "string", "description": "Optional. Uses configured default CA ID when omitted or blank."},
                    "client_name": {"type": "string"},
                    "tags": {"type": "array", "items": {"type": "string"}},
                    "parameters": {"type": "object", "additionalProperties": {"type": "string"}}
                }
            }
        }
    }
}"##;

/// The programming interface in the notation of OpenAPI, as JSON.
pub fn openapi_spec() -> (r: String)
    ensures
        r@ == OPENAPI@,
{
    OPENAPI.to_string()
}

} // verus!
