<?xml version="1.0" encoding="UTF-8"?>
<protocol name="river_control_unstable_v1">
  <interface name="zriver_control_v1" version="1">
    <request name="destroy" type="destructor"/>

    <request name="add_argument">
      <arg name="argument" type="string"/>
    </request>

    <request name="run_command">
      <arg name="seat" type="object" interface="wl_seat"/>
      <arg name="callback" type="new_id" interface="zriver_command_callback_v1"/>
    </request>
  </interface>

  <interface name="zriver_command_callback_v1" version="1">
    <event name="success">
      <arg name="output" type="string"/>
    </event>

    <event name="failure">
      <arg name="failure_message" type="string"/>
    </event>
  </interface>
</protocol>
